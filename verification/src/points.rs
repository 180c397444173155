//! Affine curve points and their serializable representation, which
//! supports an optional compression mode where only the `x` coordinate and
//! a canonical sign bit are stored, and `y` is recovered on load.
use vstd::prelude::*;

use crate::curve::{
    fp_neg, fp_gt, fp_in_range, fp_valid, g1_check_on_curve, g1_on_curve, g1_point_from_x,
    g1_sqrt_y, limb_value, fp_neg_value, fp_modulus, sign_of, lemma_canonical_injective,
};
use crate::errors::{InvalidArraySizeError, InvalidSerializedAffineError};
use crate::fields::{SerializableFp, SerializableFp2, FP_LIMBS};

verus! {

/// An affine point of the curve group: plain (x, y) coordinates, or the
/// group identity when `infinity` is set.
#[derive(Debug, Clone, PartialEq, Eq)]
pub struct AffinePoint {
    pub x: SerializableFp,
    pub y: SerializableFp,
    pub infinity: bool,
}

/// Abstract value of an [`AffinePoint`].
pub struct AffinePointView {
    pub x: Seq<u64>,
    pub y: Seq<u64>,
    pub infinity: bool,
}

impl View for AffinePoint {
    type V = AffinePointView;

    open spec fn view(&self) -> AffinePointView {
        AffinePointView { x: self.x@, y: self.y@, infinity: self.infinity }
    }
}

/// The raw representation of the zero coordinate.
pub open spec fn zero_limbs() -> Seq<u64> {
    seq![0u64, 0u64, 0u64, 0u64, 0u64, 0u64]
}

/// Abstract value of the group identity.
pub open spec fn identity_view() -> AffinePointView {
    AffinePointView { x: zero_limbs(), y: zero_limbs(), infinity: true }
}

/// A point is well formed when its coordinates are valid raw field
/// representations; the identity carries the zero coordinates.
pub open spec fn point_wf(p: AffinePointView) -> bool {
    if p.infinity {
        p == identity_view()
    } else {
        fp_valid(p.x) && fp_valid(p.y)
    }
}

impl AffinePoint {
    /// The group identity.
    pub fn zero() -> (r: AffinePoint)
        ensures
            r@ == identity_view(),
    {
        let zx = SerializableFp { val: vec![0u64, 0u64, 0u64, 0u64, 0u64, 0u64] };
        let zy = SerializableFp { val: vec![0u64, 0u64, 0u64, 0u64, 0u64, 0u64] };
        proof {
            assert(zx@ =~= zero_limbs());
            assert(zy@ =~= zero_limbs());
        }
        let r = AffinePoint { x: zx, y: zy, infinity: true };
        proof {
            assert(r@ == identity_view());
        }
        r
    }

    /// Whether this point satisfies the curve equation; the identity
    /// counts as on the curve. A positive answer certifies the
    /// compression round trip: decompressing the compressed form of this
    /// point yields this point back.
    pub fn is_on_curve(&self) -> (r: bool)
        requires
            point_wf(self@),
        ensures
            r == (self@.infinity || g1_on_curve(self@.x, self@.y)),
            r ==> spec_decompress(spec_compressed(self@)) == Ok::<
                AffinePointView,
                InvalidSerializedAffineError,
            >(self@),
    {
        if self.infinity {
            proof {
                assert(spec_decompress(spec_compressed(self@)) == Ok::<
                    AffinePointView,
                    InvalidSerializedAffineError,
                >(identity_view()));
            }
            true
        } else {
            g1_check_on_curve(&self.x, &self.y)
        }
    }
}

/// Serialization equivalent to an affine point, which supports an optional
/// compression mode where only the `x` coordinate is stored, and the `y`
/// is computed on load.
#[derive(Debug, Clone, PartialEq, Eq)]
pub enum SerializableAffine<F> {
    Infinity,
    Compressed { x: F, take_largest_y: bool },
    Uncompressed { x: F, y: F },
}

/// Abstract value of a [`SerializableAffine`].
pub enum SerializableAffineView<V> {
    Infinity,
    Compressed { x: V, take_largest_y: bool },
    Uncompressed { x: V, y: V },
}

impl<F: View> View for SerializableAffine<F> {
    type V = SerializableAffineView<F::V>;

    open spec fn view(&self) -> Self::V {
        match self {
            SerializableAffine::Infinity => SerializableAffineView::Infinity,
            SerializableAffine::Compressed { x, take_largest_y } => {
                SerializableAffineView::Compressed { x: x@, take_largest_y: *take_largest_y }
            },
            SerializableAffine::Uncompressed { x, y } => {
                SerializableAffineView::Uncompressed { x: x@, y: y@ }
            },
        }
    }
}

pub type SerializableG1Affine = SerializableAffine<SerializableFp>;

pub type SerializableG2Affine = SerializableAffine<SerializableFp2>;

/// The loss-less serialized form of a point: both coordinates, with no
/// curve validation on either side.
pub open spec fn spec_uncompressed(p: AffinePointView) -> SerializableAffineView<Seq<u64>> {
    if p.infinity {
        SerializableAffineView::Infinity
    } else {
        SerializableAffineView::Uncompressed { x: p.x, y: p.y }
    }
}

/// The compressed serialized form of a point: the x coordinate plus the
/// canonical sign bit, set exactly when y is the larger of {y, -y} in the
/// field's total order.
pub open spec fn spec_compressed(p: AffinePointView) -> SerializableAffineView<Seq<u64>> {
    if p.infinity {
        SerializableAffineView::Infinity
    } else {
        SerializableAffineView::Compressed { x: p.x, take_largest_y: sign_of(p.y) }
    }
}

/// What decoding a serialized point yields: the identity for `Infinity`;
/// for `Compressed`, the unique matching point, or
/// `InvalidCompressedXCoordinate` when x does not denote an on-curve
/// coordinate (no square root, or a representation at or above the
/// modulus); for `Uncompressed`, the unvalidated coordinates. A
/// coordinate with a wrong limb count fails first, as an `InvalidFp`
/// error.
pub open spec fn spec_decompress(a: SerializableAffineView<Seq<u64>>) -> Result<
    AffinePointView,
    InvalidSerializedAffineError,
> {
    match a {
        SerializableAffineView::Infinity => Ok(identity_view()),
        SerializableAffineView::Compressed { x, take_largest_y } => {
            if x.len() != FP_LIMBS {
                Err(
                    InvalidSerializedAffineError::InvalidFp(
                        InvalidArraySizeError {
                            expected_len: FP_LIMBS,
                            found_len: x.len() as usize,
                        },
                    ),
                )
            } else if limb_value(x) >= fp_modulus() {
                Err(InvalidSerializedAffineError::InvalidCompressedXCoordinate)
            } else {
                match g1_sqrt_y(x, take_largest_y) {
                    Some(y) => Ok(AffinePointView { x, y, infinity: false }),
                    None => Err(InvalidSerializedAffineError::InvalidCompressedXCoordinate),
                }
            }
        },
        SerializableAffineView::Uncompressed { x, y } => {
            if x.len() != FP_LIMBS {
                Err(
                    InvalidSerializedAffineError::InvalidFp(
                        InvalidArraySizeError {
                            expected_len: FP_LIMBS,
                            found_len: x.len() as usize,
                        },
                    ),
                )
            } else if y.len() != FP_LIMBS {
                Err(
                    InvalidSerializedAffineError::InvalidFp(
                        InvalidArraySizeError {
                            expected_len: FP_LIMBS,
                            found_len: y.len() as usize,
                        },
                    ),
                )
            } else {
                Ok(AffinePointView { x, y, infinity: false })
            }
        },
    }
}

impl SerializableAffine<SerializableFp> {
    /// Loss-less serialized form of `value`, no curve validation.
    pub fn uncompressed(value: AffinePoint) -> (r: Self)
        ensures
            r@ == spec_uncompressed(value@),
    {
        if value.infinity {
            SerializableAffine::Infinity
        } else {
            SerializableAffine::Uncompressed { x: value.x, y: value.y }
        }
    }

    /// Compressed serialized form of `value`: the x coordinate and the
    /// canonical sign bit of y.
    pub fn compressed(value: AffinePoint) -> (r: Self)
        requires
            point_wf(value@),
        ensures
            r@ == spec_compressed(value@),
    {
        if value.infinity {
            SerializableAffine::Infinity
        } else {
            let neg_y = fp_neg(&value.y);
            let take_largest_y = fp_gt(&value.y, &neg_y);
            SerializableAffine::Compressed { x: value.x, take_largest_y }
        }
    }
}

impl AffinePoint {
    /// Decodes a serialized point, recovering y from the sign bit for the
    /// compressed form, after checking that x denotes a value below the
    /// modulus. Fails with `InvalidCompressedXCoordinate` exactly when
    /// the x coordinate is not an on-curve coordinate — and then fails
    /// for either choice of the sign bit, as the second ensures states.
    pub fn try_from(value: SerializableG1Affine) -> (r: Result<
        AffinePoint,
        InvalidSerializedAffineError,
    >)
        ensures
            match r {
                Ok(p) => spec_decompress(value@) == Ok::<
                    AffinePointView,
                    InvalidSerializedAffineError,
                >(p@),
                Err(e) => spec_decompress(value@) == Err::<
                    AffinePointView,
                    InvalidSerializedAffineError,
                >(e),
            },
            value@ matches SerializableAffineView::Compressed { x, take_largest_y } ==> ((r
                == Err::<AffinePoint, InvalidSerializedAffineError>(
                InvalidSerializedAffineError::InvalidCompressedXCoordinate,
            )) ==> spec_decompress(
                SerializableAffineView::Compressed { x, take_largest_y: !take_largest_y },
            ) == Err::<AffinePointView, InvalidSerializedAffineError>(
                InvalidSerializedAffineError::InvalidCompressedXCoordinate,
            )),
    {
        match value {
            SerializableAffine::Infinity => Ok(AffinePoint::zero()),
            SerializableAffine::Compressed { x, take_largest_y } => {
                if x.val.len() != FP_LIMBS {
                    let len = x.val.len();
                    return Err(
                        InvalidSerializedAffineError::InvalidFp(
                            InvalidArraySizeError { expected_len: FP_LIMBS, found_len: len },
                        ),
                    );
                }
                if !fp_in_range(&x) {
                    return Err(InvalidSerializedAffineError::InvalidCompressedXCoordinate);
                }
                match g1_point_from_x(&x, take_largest_y) {
                    Some(y) => Ok(AffinePoint { x, y, infinity: false }),
                    None => Err(InvalidSerializedAffineError::InvalidCompressedXCoordinate),
                }
            },
            SerializableAffine::Uncompressed { x, y } => {
                if x.val.len() != FP_LIMBS {
                    let len = x.val.len();
                    return Err(
                        InvalidSerializedAffineError::InvalidFp(
                            InvalidArraySizeError { expected_len: FP_LIMBS, found_len: len },
                        ),
                    );
                }
                if y.val.len() != FP_LIMBS {
                    let len = y.val.len();
                    return Err(
                        InvalidSerializedAffineError::InvalidFp(
                            InvalidArraySizeError { expected_len: FP_LIMBS, found_len: len },
                        ),
                    );
                }
                Ok(AffinePoint { x, y, infinity: false })
            },
        }
    }
}

/// Canonical sign law: the negated point at the same x carries the
/// opposite sign bit in its compressed form. The law excludes a y
/// coordinate of zero, which is its own negation.
pub proof fn lemma_opposite_sign(p: AffinePointView, n: AffinePointView)
    requires
        !p.infinity,
        !n.infinity,
        point_wf(p),
        point_wf(n),
        n.x == p.x,
        limb_value(n.y) == fp_neg_value(limb_value(p.y)),
        limb_value(p.y) != 0,
    ensures
        spec_compressed(n) matches SerializableAffineView::Compressed { take_largest_y: s2, .. }
            && (spec_compressed(p) matches SerializableAffineView::Compressed {
            take_largest_y: s1,
            ..
        } && s2 == !s1),
{
    let vy = limb_value(p.y);
    let p_mod = fp_modulus();
    lemma_limb_value_nonneg(p.y);
    lemma_limb_value_nonneg(n.y);
    assert(limb_value(n.y) == p_mod - vy);
    assert(p_mod - vy != 0);
    assert(fp_neg_value(limb_value(n.y)) == vy);
    assert(vy != p_mod - vy) by {
        assert(p_mod % 2 == 1);
        if vy == p_mod - vy {
            assert(2 * vy == p_mod);
            assert(p_mod % 2 == 0) by (nonlinear_arith)
                requires
                    2 * vy == p_mod,
                    vy >= 0,
            ;
        }
    }
    lemma_canonical_injective(vy, p_mod - vy);
    assert(sign_of(n.y) == !sign_of(p.y));
}

/// The value denoted by a limb sequence is never negative.
pub proof fn lemma_limb_value_nonneg(s: Seq<u64>)
    ensures
        limb_value(s) >= 0,
    decreases s.len(),
{
    if s.len() > 0 {
        lemma_limb_value_nonneg(s.skip(1));
    }
}

} // verus!
