//! Field elements and their fixed-shape serializable representations.
//!
//! A native prime-field element is an ordered sequence of exactly
//! [`FP_LIMBS`] 64-bit limbs; extension fields stack pairs and triples of
//! the level below. The serializable forms hold plain limb vectors, whose
//! length is validated on the way back to the native shape.
use vstd::prelude::*;

use crate::errors::InvalidArraySizeError;

verus! {

/// Number of 64-bit limbs in a base-field element.
pub const FP_LIMBS: usize = 6;

/// Relies on `<Vec<T> as TryInto<[T; N]>>::try_into`: it succeeds exactly
/// when the vector holds `N` elements, returning them unchanged, and hands
/// the vector back otherwise.
#[verifier::external_body]
fn vec_try_into_array<T, const N: usize>(v: Vec<T>) -> (r: Result<[T; N], Vec<T>>)
    ensures
        match r {
            Ok(a) => v@.len() == N && a@ == v@,
            Err(w) => v@.len() != N && w@ == v@,
        },
{
    v.try_into()
}

/// Tries to convert a Vec into a constant size array, and returns an
/// [`InvalidArraySizeError`] if the size does not match: the fixed array
/// size is what was expected, the vector's length is what was found.
pub fn try_vec_to_array<T, const N: usize>(vec: Vec<T>) -> (r: Result<[T; N], InvalidArraySizeError>)
    ensures
        match r {
            Ok(a) => vec@.len() == N && a@ == vec@,
            Err(e) => {
                &&& vec@.len() != N
                &&& e.expected_len == N
                &&& e.found_len == vec@.len()
            },
        },
{
    let len = vec.len();
    match vec_try_into_array(vec) {
        Ok(a) => Ok(a),
        Err(_) => Err(InvalidArraySizeError { expected_len: N, found_len: len }),
    }
}

/// A native base-field element: exactly [`FP_LIMBS`] limbs, least
/// significant first, in the backend's internal representation.
#[derive(Debug, Clone, Copy, PartialEq, Eq)]
pub struct Fp {
    pub limbs: [u64; 6],
}

impl View for Fp {
    type V = Seq<u64>;

    open spec fn view(&self) -> Seq<u64> {
        self.limbs@
    }
}

/// A native quadratic extension element over [`Fp`].
#[derive(Debug, Clone, Copy, PartialEq, Eq)]
pub struct Fp2 {
    pub c0: Fp,
    pub c1: Fp,
}

impl View for Fp2 {
    type V = (Seq<u64>, Seq<u64>);

    open spec fn view(&self) -> (Seq<u64>, Seq<u64>) {
        (self.c0@, self.c1@)
    }
}

/// A native cubic extension element over [`Fp2`].
#[derive(Debug, Clone, Copy, PartialEq, Eq)]
pub struct Fp6 {
    pub c0: Fp2,
    pub c1: Fp2,
    pub c2: Fp2,
}

impl View for Fp6 {
    type V = ((Seq<u64>, Seq<u64>), (Seq<u64>, Seq<u64>), (Seq<u64>, Seq<u64>));

    open spec fn view(&self) -> Self::V {
        (self.c0@, self.c1@, self.c2@)
    }
}

/// A native quadratic extension element over [`Fp6`].
#[derive(Debug, Clone, Copy, PartialEq, Eq)]
pub struct Fp12 {
    pub c0: Fp6,
    pub c1: Fp6,
}

impl View for Fp12 {
    type V = (<Fp6 as View>::V, <Fp6 as View>::V);

    open spec fn view(&self) -> Self::V {
        (self.c0@, self.c1@)
    }
}

/// Serialization equivalent of the [`Fp`] struct, where the bigint is split
/// into multiple u64.
#[derive(Debug, Clone, PartialEq, Eq)]
pub struct SerializableFp {
    pub val: Vec<u64>,
}

impl View for SerializableFp {
    type V = Seq<u64>;

    open spec fn view(&self) -> Seq<u64> {
        self.val@
    }
}

impl SerializableFp {
    /// The serializable form of a native field element: its limbs, in order.
    pub fn from(value: Fp) -> (r: Self)
        ensures
            r@ == value@,
    {
        let mut val: Vec<u64> = Vec::new();
        val.push(value.limbs[0]);
        val.push(value.limbs[1]);
        val.push(value.limbs[2]);
        val.push(value.limbs[3]);
        val.push(value.limbs[4]);
        val.push(value.limbs[5]);
        proof {
            assert(val@ =~= value.limbs@);
        }
        SerializableFp { val }
    }
}

impl Fp {
    /// Recovers the native element; fails exactly when the limb count is
    /// not [`FP_LIMBS`].
    pub fn try_from(value: SerializableFp) -> (r: Result<Fp, InvalidArraySizeError>)
        ensures
            match r {
                Ok(f) => value@.len() == FP_LIMBS && f@ == value@,
                Err(e) => {
                    &&& value@.len() != FP_LIMBS
                    &&& e.expected_len == FP_LIMBS
                    &&& e.found_len == value@.len()
                },
            },
    {
        match try_vec_to_array::<u64, 6>(value.val) {
            Ok(limbs) => Ok(Fp { limbs }),
            Err(e) => Err(e),
        }
    }
}

/// Serialization equivalent of a quadratic extension element.
#[derive(Debug, Clone, PartialEq, Eq)]
pub struct SerializableQuadExtField<F> {
    pub c0: F,
    pub c1: F,
}

impl<F: View> View for SerializableQuadExtField<F> {
    type V = (F::V, F::V);

    open spec fn view(&self) -> Self::V {
        (self.c0@, self.c1@)
    }
}

pub type SerializableFp2 = SerializableQuadExtField<SerializableFp>;

/// Serialization equivalent of a cubic extension element.
#[derive(Debug, Clone, PartialEq, Eq)]
pub struct SerializableCubicExtField<F> {
    pub c0: F,
    pub c1: F,
    pub c2: F,
}

impl<F: View> View for SerializableCubicExtField<F> {
    type V = (F::V, F::V, F::V);

    open spec fn view(&self) -> Self::V {
        (self.c0@, self.c1@, self.c2@)
    }
}

pub type SerializableFp6 = SerializableCubicExtField<SerializableFp2>;

pub type SerializableFp12 = SerializableQuadExtField<SerializableFp6>;

impl SerializableQuadExtField<SerializableFp> {
    /// The serializable form of a native quadratic extension element.
    pub fn from(value: Fp2) -> (r: Self)
        ensures
            r@ == value@,
    {
        SerializableQuadExtField {
            c0: SerializableFp::from(value.c0),
            c1: SerializableFp::from(value.c1),
        }
    }
}

impl Fp2 {
    /// Recovers the native element; fails exactly when one of the two limb
    /// vectors has the wrong length, reporting the first offender.
    pub fn try_from(value: SerializableFp2) -> (r: Result<Fp2, InvalidArraySizeError>)
        ensures
            match r {
                Ok(f) => value@.0.len() == FP_LIMBS && value@.1.len() == FP_LIMBS && f@ == value@,
                Err(e) => {
                    &&& value@.0.len() != FP_LIMBS || value@.1.len() != FP_LIMBS
                    &&& e.expected_len == FP_LIMBS
                    &&& e.found_len == first_quad_bad_len(value@)
                },
            },
    {
        let c0 = match Fp::try_from(value.c0) {
            Ok(f) => f,
            Err(e) => {
                return Err(e);
            },
        };
        let c1 = match Fp::try_from(value.c1) {
            Ok(f) => f,
            Err(e) => {
                return Err(e);
            },
        };
        Ok(Fp2 { c0, c1 })
    }
}

impl SerializableCubicExtField<SerializableFp2> {
    /// The serializable form of a native cubic extension element.
    pub fn from(value: Fp6) -> (r: Self)
        ensures
            r@ == value@,
    {
        SerializableCubicExtField {
            c0: SerializableFp2::from(value.c0),
            c1: SerializableFp2::from(value.c1),
            c2: SerializableFp2::from(value.c2),
        }
    }
}

/// Whether the serialized view of a quadratic extension element has the
/// right limb counts.
pub open spec fn quad_lens_ok(v: (Seq<u64>, Seq<u64>)) -> bool {
    v.0.len() == FP_LIMBS && v.1.len() == FP_LIMBS
}

/// The length of the first component of a quadratic extension element
/// whose limb count is wrong (the second, when the first is fine).
pub open spec fn first_quad_bad_len(v: (Seq<u64>, Seq<u64>)) -> int {
    if v.0.len() != FP_LIMBS {
        v.0.len() as int
    } else {
        v.1.len() as int
    }
}

impl Fp6 {
    /// Recovers the native element; fails exactly when one of the six limb
    /// vectors has the wrong length, reporting the first offender.
    pub fn try_from(value: SerializableFp6) -> (r: Result<Fp6, InvalidArraySizeError>)
        ensures
            match r {
                Ok(f) => quad_lens_ok(value@.0) && quad_lens_ok(value@.1) && quad_lens_ok(value@.2)
                    && f@ == value@,
                Err(e) => {
                    &&& !(quad_lens_ok(value@.0) && quad_lens_ok(value@.1) && quad_lens_ok(
                        value@.2,
                    ))
                    &&& e.expected_len == FP_LIMBS
                    &&& e.found_len == first_cubic_bad_len(value@)
                },
            },
    {
        let c0 = match Fp2::try_from(value.c0) {
            Ok(f) => f,
            Err(e) => {
                return Err(e);
            },
        };
        let c1 = match Fp2::try_from(value.c1) {
            Ok(f) => f,
            Err(e) => {
                return Err(e);
            },
        };
        let c2 = match Fp2::try_from(value.c2) {
            Ok(f) => f,
            Err(e) => {
                return Err(e);
            },
        };
        Ok(Fp6 { c0, c1, c2 })
    }
}

impl SerializableQuadExtField<SerializableFp6> {
    /// The serializable form of a native degree-twelve extension element.
    pub fn from(value: Fp12) -> (r: Self)
        ensures
            r@ == value@,
    {
        SerializableQuadExtField {
            c0: SerializableFp6::from(value.c0),
            c1: SerializableFp6::from(value.c1),
        }
    }
}

/// Whether the serialized view of a cubic extension element has the right
/// limb counts.
pub open spec fn cubic_lens_ok(
    v: ((Seq<u64>, Seq<u64>), (Seq<u64>, Seq<u64>), (Seq<u64>, Seq<u64>)),
) -> bool {
    quad_lens_ok(v.0) && quad_lens_ok(v.1) && quad_lens_ok(v.2)
}

/// The length of the first component of a cubic extension element whose
/// limb count is wrong, walking its quadratic components in order.
pub open spec fn first_cubic_bad_len(
    v: ((Seq<u64>, Seq<u64>), (Seq<u64>, Seq<u64>), (Seq<u64>, Seq<u64>)),
) -> int {
    if !quad_lens_ok(v.0) {
        first_quad_bad_len(v.0)
    } else if !quad_lens_ok(v.1) {
        first_quad_bad_len(v.1)
    } else {
        first_quad_bad_len(v.2)
    }
}

impl Fp12 {
    /// Recovers the native element; fails exactly when one of the twelve
    /// limb vectors has the wrong length, reporting the first offender.
    pub fn try_from(value: SerializableFp12) -> (r: Result<Fp12, InvalidArraySizeError>)
        ensures
            match r {
                Ok(f) => cubic_lens_ok(value@.0) && cubic_lens_ok(value@.1) && f@ == value@,
                Err(e) => {
                    &&& !(cubic_lens_ok(value@.0) && cubic_lens_ok(value@.1))
                    &&& e.expected_len == FP_LIMBS
                    &&& e.found_len == if !cubic_lens_ok(value@.0) {
                        first_cubic_bad_len(value@.0)
                    } else {
                        first_cubic_bad_len(value@.1)
                    }
                },
            },
    {
        let c0 = match Fp6::try_from(value.c0) {
            Ok(f) => f,
            Err(e) => {
                return Err(e);
            },
        };
        let c1 = match Fp6::try_from(value.c1) {
            Ok(f) => f,
            Err(e) => {
                return Err(e);
            },
        };
        Ok(Fp12 { c0, c1 })
    }
}

} // verus!
