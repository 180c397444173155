//! The deterministic binary codec of the payload types that travel through
//! the serialization envelope, and the stable names the envelope's header
//! carries for them.
use vstd::prelude::*;

use crate::conformance::{ListSizeConstraint, ParameterSetConformant};
use crate::fields::{
    SerializableCubicExtField, SerializableFp, SerializableFp2, SerializableFp6,
    SerializableQuadExtField,
};
use crate::points::{SerializableAffine, SerializableAffineView, SerializableG1Affine};
use crate::versioning::{
    SerializableAffineVersions, SerializableCubicExtFieldVersions, SerializableFpVersions,
    SerializableQuadExtFieldVersions,
};
use crate::wire::{
    limbs_enc, lemma_limbs_enc_len, lemma_parse_limbs_complete, lemma_parse_limbs_sound,
    parse_limbs, read_u64s, write_u64s, write_u8,
};

verus! {

/// The bytes of an ASCII string, one byte per character.
pub open spec fn ascii_bytes(s: Seq<char>) -> Seq<u8> {
    Seq::new(s.len(), |i: int| s[i] as u8)
}

/// Whether every byte of a string is ASCII.
pub open spec fn ascii_only(v: Seq<u8>) -> bool {
    forall|i: int| 0 <= i < v.len() ==> v[i] < 128
}

/// The characters of an ASCII byte string, one per byte.
pub open spec fn ascii_chars(v: Seq<u8>) -> Seq<char> {
    Seq::new(v.len(), |i: int| v[i] as char)
}

/// Turns an ASCII string into its bytes.
pub fn str_to_bytes(s: &str) -> (r: Vec<u8>)
    requires
        vstd::string::is_ascii(s),
    ensures
        r@ == ascii_bytes(s@),
{
    proof {
        vstd::string::is_ascii_spec_bytes(s);
    }
    vstd::slice::slice_to_vec(s.as_bytes())
}

/// Every type the envelope carries exposes a stable identifier, used as
/// the header's type name.
pub trait Named {
    spec fn spec_name() -> Seq<u8>;

    /// A stable identifier is short enough for a length prefix.
    proof fn lemma_name_len()
        ensures
            Self::spec_name().len() < 0x1_0000_0000_0000_0000,
    ;

    fn name_bytes() -> (r: Vec<u8>)
        ensures
            r@ == Self::spec_name(),
    ;
}

/// A deterministic, fixed-width, length-prefixed binary codec.
///
/// `spec_parse` is the unique prefix parse: soundness says whatever parses
/// was an exact encoding of the result, completeness says a stream that
/// starts with an encoding parses to exactly that value. Together they
/// make the encoding injective and the parse deterministic.
pub trait BinaryCodec: View + Sized {
    /// Abstract values whose encoding is faithful; every value an exec
    /// object can take is valid.
    spec fn spec_valid(v: Self::V) -> bool;

    /// The bytes that encode abstract value `v`.
    spec fn spec_encoding(v: Self::V) -> Seq<u8>;

    /// The unique prefix parse of `b`: the decoded abstract value and the
    /// number of bytes consumed.
    spec fn spec_parse(b: Seq<u8>) -> Option<(Self::V, int)>;

    proof fn lemma_valid(&self)
        ensures
            Self::spec_valid(self@),
    ;

    proof fn lemma_parse_sound(b: Seq<u8>)
        ensures
            Self::spec_parse(b) matches Some((v, n)) ==> {
                &&& 0 <= n <= b.len()
                &&& Self::spec_valid(v)
                &&& b.take(n) == Self::spec_encoding(v)
                &&& n == Self::spec_encoding(v).len()
            },
    ;

    proof fn lemma_parse_complete(v: Self::V, b: Seq<u8>)
        requires
            Self::spec_valid(v),
            Self::spec_encoding(v).len() <= b.len(),
            b.take(Self::spec_encoding(v).len() as int) == Self::spec_encoding(v),
        ensures
            Self::spec_parse(b) == Some((v, Self::spec_encoding(v).len() as int)),
    ;

    /// Appends the encoding of `self` to `out`.
    fn encode(&self, out: &mut Vec<u8>)
        ensures
            final(out)@ == old(out)@ + Self::spec_encoding(self@),
    ;

    /// Decodes one value at `pos`, refusing values whose encoded size
    /// exceeds `limit` bytes (0 meaning unlimited) before building them.
    fn decode(b: &[u8], pos: usize, limit: u64) -> (r: Result<(Self, usize), ()>)
        requires
            pos <= b@.len(),
        ensures
            match Self::spec_parse(b@.skip(pos as int)) {
                Some((v, n)) => if limit == 0 || n <= limit as int {
                    r matches Ok(p) && p.0@ == v && p.1 == pos + n
                } else {
                    r is Err
                },
                None => r is Err,
            },
    ;
}

impl Named for SerializableFp {
    open spec fn spec_name() -> Seq<u8> {
        ascii_bytes("SerializableFp"@)
    }

    proof fn lemma_name_len() {
        reveal_strlit("SerializableFp");
    }

    fn name_bytes() -> (r: Vec<u8>) {
        proof {
            reveal_strlit("SerializableFp");
        }
        str_to_bytes("SerializableFp")
    }
}

impl BinaryCodec for SerializableFp {
    open spec fn spec_valid(v: Seq<u64>) -> bool {
        v.len() < 0x1_0000_0000_0000_0000
    }

    open spec fn spec_encoding(v: Seq<u64>) -> Seq<u8> {
        limbs_enc(v)
    }

    open spec fn spec_parse(b: Seq<u8>) -> Option<(Seq<u64>, int)> {
        parse_limbs(b)
    }

    proof fn lemma_valid(&self) {
        vstd::std_specs::vec::axiom_spec_len(&self.val);
    }

    proof fn lemma_parse_sound(b: Seq<u8>) {
        lemma_parse_limbs_sound(b);
    }

    proof fn lemma_parse_complete(v: Seq<u64>, b: Seq<u8>) {
        lemma_parse_limbs_complete(v, b);
    }

    fn encode(&self, out: &mut Vec<u8>) {
        write_u64s(out, &self.val);
    }

    fn decode(b: &[u8], pos: usize, limit: u64) -> (r: Result<(Self, usize), ()>) {
        match read_u64s(b, pos, limit) {
            Ok((val, end)) => Ok((SerializableFp { val }, end)),
            Err(_) => Err(()),
        }
    }
}

impl ParameterSetConformant for SerializableFp {
    type ParameterSet = ListSizeConstraint;

    open spec fn spec_is_conformant(v: Seq<u64>, parameter_set: ListSizeConstraint) -> bool {
        parameter_set.spec_accepts(v.len() as int)
    }

    fn is_conformant(&self, parameter_set: &ListSizeConstraint) -> (r: bool) {
        parameter_set.min_inclusive <= self.val.len() && self.val.len()
            <= parameter_set.max_inclusive
    }
}

/// The tag of the one shape the field element ever had.
pub const FP_SHAPE_TAG: u8 = 0;

impl BinaryCodec for SerializableFpVersions {
    open spec fn spec_valid(v: Seq<u64>) -> bool {
        v.len() < 0x1_0000_0000_0000_0000
    }

    open spec fn spec_encoding(v: Seq<u64>) -> Seq<u8> {
        seq![FP_SHAPE_TAG] + limbs_enc(v)
    }

    open spec fn spec_parse(b: Seq<u8>) -> Option<(Seq<u64>, int)> {
        if b.len() >= 1 && b[0] == FP_SHAPE_TAG {
            match parse_limbs(b.skip(1)) {
                Some((v, n)) => Some((v, 1 + n)),
                None => None,
            }
        } else {
            None
        }
    }

    proof fn lemma_valid(&self) {
        match self {
            SerializableFpVersions::V0(fp) => {
                vstd::std_specs::vec::axiom_spec_len(&fp.val);
            },
        }
    }

    proof fn lemma_parse_sound(b: Seq<u8>) {
        if b.len() >= 1 && b[0] == FP_SHAPE_TAG {
            lemma_parse_limbs_sound(b.skip(1));
            if let Some((v, n)) = parse_limbs(b.skip(1)) {
                assert(b.take(1 + n) =~= seq![FP_SHAPE_TAG] + b.skip(1).take(n));
            }
        }
    }

    proof fn lemma_parse_complete(v: Seq<u64>, b: Seq<u8>) {
        let e = Self::spec_encoding(v);
        lemma_limbs_enc_len(v);
        assert(b[0] == e[0]) by {
            assert(b.take(e.len() as int)[0] == e[0]);
        }
        assert(b.skip(1).take(limbs_enc(v).len() as int) =~= e.skip(1).take(
            limbs_enc(v).len() as int,
        )) by {
            assert forall|i: int| 0 <= i < limbs_enc(v).len() implies b.skip(1)[i] == e.skip(
                1,
            )[i] by {
                assert(b.take(e.len() as int)[1 + i] == e[1 + i]);
            }
        }
        assert(e.skip(1).take(limbs_enc(v).len() as int) =~= limbs_enc(v));
        lemma_parse_limbs_complete(v, b.skip(1));
    }

    fn encode(&self, out: &mut Vec<u8>) {
        write_u8(out, FP_SHAPE_TAG);
        match self {
            SerializableFpVersions::V0(fp) => {
                write_u64s(out, &fp.val);
            },
        }
        proof {
            assert(final(out)@ =~= old(out)@ + Self::spec_encoding(self@));
        }
    }

    fn decode(b: &[u8], pos: usize, limit: u64) -> (r: Result<(Self, usize), ()>) {
        if pos >= b.len() {
            return Err(());
        }
        if b[pos] != FP_SHAPE_TAG {
            return Err(());
        }
        if limit == 1 {
            proof {
                if let Some((v, n)) = parse_limbs(b@.skip(pos as int).skip(1)) {
                    lemma_parse_limbs_sound(b@.skip(pos as int).skip(1));
                    lemma_limbs_enc_len(v);
                }
            }
            return Err(());
        }
        let inner_limit: u64 = if limit == 0 {
            0
        } else {
            limit - 1
        };
        proof {
            assert(b@.skip(pos as int).skip(1) =~= b@.skip(pos as int + 1));
        }
        match read_u64s(b, pos + 1, inner_limit) {
            Ok((val, end)) => Ok((SerializableFpVersions::V0(SerializableFp { val }), end)),
            Err(_) => Err(()),
        }
    }
}

impl Named for SerializableQuadExtField<SerializableFp> {
    open spec fn spec_name() -> Seq<u8> {
        ascii_bytes("SerializableQuadExtField"@)
    }

    proof fn lemma_name_len() {
        reveal_strlit("SerializableQuadExtField");
    }

    fn name_bytes() -> (r: Vec<u8>) {
        proof {
            reveal_strlit("SerializableQuadExtField");
        }
        str_to_bytes("SerializableQuadExtField")
    }
}

impl BinaryCodec for SerializableQuadExtField<SerializableFp> {
    open spec fn spec_valid(v: (Seq<u64>, Seq<u64>)) -> bool {
        v.0.len() < 0x1_0000_0000_0000_0000 && v.1.len() < 0x1_0000_0000_0000_0000
    }

    open spec fn spec_encoding(v: (Seq<u64>, Seq<u64>)) -> Seq<u8> {
        limbs_enc(v.0) + limbs_enc(v.1)
    }

    open spec fn spec_parse(b: Seq<u8>) -> Option<((Seq<u64>, Seq<u64>), int)> {
        match parse_limbs(b) {
            None => None,
            Some((c0, n0)) => match parse_limbs(b.skip(n0)) {
                None => None,
                Some((c1, n1)) => Some(((c0, c1), n0 + n1)),
            },
        }
    }

    proof fn lemma_valid(&self) {
        vstd::std_specs::vec::axiom_spec_len(&self.c0.val);
        vstd::std_specs::vec::axiom_spec_len(&self.c1.val);
    }

    proof fn lemma_parse_sound(b: Seq<u8>) {
        lemma_parse_limbs_sound(b);
        if let Some((c0, n0)) = parse_limbs(b) {
            lemma_parse_limbs_sound(b.skip(n0));
            if let Some((c1, n1)) = parse_limbs(b.skip(n0)) {
                lemma_limbs_enc_len(c0);
                lemma_limbs_enc_len(c1);
                assert(b.take(n0 + n1) =~= b.take(n0) + b.skip(n0).take(n1));
            }
        }
    }

    proof fn lemma_parse_complete(v: (Seq<u64>, Seq<u64>), b: Seq<u8>) {
        let e0 = limbs_enc(v.0);
        let e1 = limbs_enc(v.1);
        let e = Self::spec_encoding(v);
        lemma_limbs_enc_len(v.0);
        lemma_limbs_enc_len(v.1);
        assert(b.take(e0.len() as int) =~= e0) by {
            assert forall|i: int| 0 <= i < e0.len() implies b[i] == e0[i] by {
                assert(b.take(e.len() as int)[i] == e[i]);
            }
        }
        lemma_parse_limbs_complete(v.0, b);
        assert(b.skip(e0.len() as int).take(e1.len() as int) =~= e1) by {
            assert forall|i: int| 0 <= i < e1.len() implies b.skip(e0.len() as int)[i] == e1[i] by {
                assert(b.take(e.len() as int)[e0.len() + i] == e[e0.len() + i]);
            }
        }
        lemma_parse_limbs_complete(v.1, b.skip(e0.len() as int));
    }

    fn encode(&self, out: &mut Vec<u8>) {
        write_u64s(out, &self.c0.val);
        write_u64s(out, &self.c1.val);
        proof {
            assert(final(out)@ =~= old(out)@ + Self::spec_encoding(self@));
        }
    }

    fn decode(b: &[u8], pos: usize, limit: u64) -> (r: Result<(Self, usize), ()>) {
        let ghost tail = b@.skip(pos as int);
        let (c0, mid) = match read_u64s(b, pos, limit) {
            Ok(p) => p,
            Err(_) => {
                return Err(());
            },
        };
        let used: u64 = (mid - pos) as u64;
        proof {
            lemma_parse_limbs_sound(tail);
            if let Some((v1, n1)) = parse_limbs(tail.skip(mid - pos as int)) {
                lemma_parse_limbs_sound(tail.skip(mid - pos as int));
                lemma_limbs_enc_len(v1);
            }
            assert(tail.skip(mid - pos as int) =~= b@.skip(mid as int));
        }
        if limit != 0 && used >= limit {
            return Err(());
        }
        let inner_limit: u64 = if limit == 0 {
            0
        } else {
            limit - used
        };
        match read_u64s(b, mid, inner_limit) {
            Ok((c1v, end)) => Ok(
                (
                    SerializableQuadExtField {
                        c0: SerializableFp { val: c0 },
                        c1: SerializableFp { val: c1v },
                    },
                    end,
                ),
            ),
            Err(_) => Err(()),
        }
    }
}

impl ParameterSetConformant for SerializableQuadExtField<SerializableFp> {
    type ParameterSet = ListSizeConstraint;

    open spec fn spec_is_conformant(
        v: (Seq<u64>, Seq<u64>),
        parameter_set: ListSizeConstraint,
    ) -> bool {
        parameter_set.spec_accepts(v.0.len() as int) && parameter_set.spec_accepts(
            v.1.len() as int,
        )
    }

    fn is_conformant(&self, parameter_set: &ListSizeConstraint) -> (r: bool) {
        parameter_set.min_inclusive <= self.c0.val.len() && self.c0.val.len()
            <= parameter_set.max_inclusive && parameter_set.min_inclusive <= self.c1.val.len()
            && self.c1.val.len() <= parameter_set.max_inclusive
    }
}

/// The tag of the one shape the quadratic extension element ever had.
pub const QUAD_SHAPE_TAG: u8 = 0;

impl BinaryCodec for SerializableQuadExtFieldVersions<SerializableFp> {
    open spec fn spec_valid(v: (Seq<u64>, Seq<u64>)) -> bool {
        <SerializableFp2 as BinaryCodec>::spec_valid(v)
    }

    open spec fn spec_encoding(v: (Seq<u64>, Seq<u64>)) -> Seq<u8> {
        seq![QUAD_SHAPE_TAG] + <SerializableFp2 as BinaryCodec>::spec_encoding(v)
    }

    open spec fn spec_parse(b: Seq<u8>) -> Option<((Seq<u64>, Seq<u64>), int)> {
        if b.len() >= 1 && b[0] == QUAD_SHAPE_TAG {
            match <SerializableFp2 as BinaryCodec>::spec_parse(b.skip(1)) {
                Some((v, n)) => Some((v, 1 + n)),
                None => None,
            }
        } else {
            None
        }
    }

    proof fn lemma_valid(&self) {
        match self {
            SerializableQuadExtFieldVersions::V0(q) => {
                q.lemma_valid();
            },
        }
    }

    proof fn lemma_parse_sound(b: Seq<u8>) {
        if b.len() >= 1 && b[0] == QUAD_SHAPE_TAG {
            <SerializableFp2 as BinaryCodec>::lemma_parse_sound(b.skip(1));
            if let Some((v, n)) = <SerializableFp2 as BinaryCodec>::spec_parse(b.skip(1)) {
                assert(b.take(1 + n) =~= seq![QUAD_SHAPE_TAG] + b.skip(1).take(n));
            }
        }
    }

    proof fn lemma_parse_complete(v: (Seq<u64>, Seq<u64>), b: Seq<u8>) {
        let inner = <SerializableFp2 as BinaryCodec>::spec_encoding(v);
        let e = Self::spec_encoding(v);
        assert(b[0] == e[0]) by {
            assert(b.take(e.len() as int)[0] == e[0]);
        }
        assert(b.skip(1).take(inner.len() as int) =~= inner) by {
            assert forall|i: int| 0 <= i < inner.len() implies b.skip(1)[i] == inner[i] by {
                assert(b.take(e.len() as int)[1 + i] == e[1 + i]);
            }
        }
        <SerializableFp2 as BinaryCodec>::lemma_parse_complete(v, b.skip(1));
    }

    fn encode(&self, out: &mut Vec<u8>) {
        write_u8(out, QUAD_SHAPE_TAG);
        match self {
            SerializableQuadExtFieldVersions::V0(q) => {
                q.encode(out);
            },
        }
        proof {
            assert(final(out)@ =~= old(out)@ + Self::spec_encoding(self@));
        }
    }

    fn decode(b: &[u8], pos: usize, limit: u64) -> (r: Result<(Self, usize), ()>) {
        if pos >= b.len() {
            return Err(());
        }
        if b[pos] != QUAD_SHAPE_TAG {
            return Err(());
        }
        if limit == 1 {
            proof {
                if let Some((v, n)) = <SerializableFp2 as BinaryCodec>::spec_parse(
                    b@.skip(pos as int).skip(1),
                ) {
                    <SerializableFp2 as BinaryCodec>::lemma_parse_sound(b@.skip(pos as int).skip(1));
                }
            }
            return Err(());
        }
        let inner_limit: u64 = if limit == 0 {
            0
        } else {
            limit - 1
        };
        proof {
            assert(b@.skip(pos as int).skip(1) =~= b@.skip(pos as int + 1));
        }
        match <SerializableFp2 as BinaryCodec>::decode(b, pos + 1, inner_limit) {
            Ok((q, end)) => Ok((SerializableQuadExtFieldVersions::V0(q), end)),
            Err(_) => Err(()),
        }
    }
}

/// The arm tag of a serialized identity point.
pub const AFFINE_INFINITY_TAG: u8 = 0;

/// The arm tag of a compressed point.
pub const AFFINE_COMPRESSED_TAG: u8 = 1;

/// The arm tag of an uncompressed point.
pub const AFFINE_UNCOMPRESSED_TAG: u8 = 2;

/// The wire byte of a sign bit.
pub open spec fn sign_byte(s: bool) -> u8 {
    if s {
        1
    } else {
        0
    }
}

/// The bytes of a serialized point: an arm tag, then the arm's fields.
pub open spec fn affine_enc(v: SerializableAffineView<Seq<u64>>) -> Seq<u8> {
    match v {
        SerializableAffineView::Infinity => seq![AFFINE_INFINITY_TAG],
        SerializableAffineView::Compressed { x, take_largest_y } => seq![
            AFFINE_COMPRESSED_TAG,
            sign_byte(take_largest_y),
        ] + limbs_enc(x),
        SerializableAffineView::Uncompressed { x, y } => seq![AFFINE_UNCOMPRESSED_TAG] + limbs_enc(
            x,
        ) + limbs_enc(y),
    }
}

/// Whether an abstract serialized point fits its length prefixes.
pub open spec fn affine_valid(v: SerializableAffineView<Seq<u64>>) -> bool {
    match v {
        SerializableAffineView::Infinity => true,
        SerializableAffineView::Compressed { x, .. } => x.len() < 0x1_0000_0000_0000_0000,
        SerializableAffineView::Uncompressed { x, y } => x.len() < 0x1_0000_0000_0000_0000
            && y.len() < 0x1_0000_0000_0000_0000,
    }
}

/// The unique prefix parse of a serialized point.
pub open spec fn parse_affine(b: Seq<u8>) -> Option<(SerializableAffineView<Seq<u64>>, int)> {
    if b.len() < 1 {
        None
    } else if b[0] == AFFINE_INFINITY_TAG {
        Some((SerializableAffineView::Infinity, 1int))
    } else if b[0] == AFFINE_COMPRESSED_TAG {
        if b.len() >= 2 && (b[1] == 0 || b[1] == 1) {
            match parse_limbs(b.skip(2)) {
                Some((x, n)) => Some(
                    (SerializableAffineView::Compressed { x, take_largest_y: b[1] == 1 }, 2 + n),
                ),
                None => None,
            }
        } else {
            None
        }
    } else if b[0] == AFFINE_UNCOMPRESSED_TAG {
        match parse_limbs(b.skip(1)) {
            Some((x, n0)) => match parse_limbs(b.skip(1 + n0)) {
                Some((y, n1)) => Some(
                    (SerializableAffineView::Uncompressed { x, y }, 1 + n0 + n1),
                ),
                None => None,
            },
            None => None,
        }
    } else {
        None
    }
}

impl Named for SerializableAffine<SerializableFp> {
    open spec fn spec_name() -> Seq<u8> {
        ascii_bytes("SerializableAffine"@)
    }

    proof fn lemma_name_len() {
        reveal_strlit("SerializableAffine");
    }

    fn name_bytes() -> (r: Vec<u8>) {
        proof {
            reveal_strlit("SerializableAffine");
        }
        str_to_bytes("SerializableAffine")
    }
}

impl BinaryCodec for SerializableAffine<SerializableFp> {
    open spec fn spec_valid(v: SerializableAffineView<Seq<u64>>) -> bool {
        affine_valid(v)
    }

    open spec fn spec_encoding(v: SerializableAffineView<Seq<u64>>) -> Seq<u8> {
        affine_enc(v)
    }

    open spec fn spec_parse(b: Seq<u8>) -> Option<(SerializableAffineView<Seq<u64>>, int)> {
        parse_affine(b)
    }

    proof fn lemma_valid(&self) {
        match self {
            SerializableAffine::Infinity => {},
            SerializableAffine::Compressed { x, .. } => {
                vstd::std_specs::vec::axiom_spec_len(&x.val);
            },
            SerializableAffine::Uncompressed { x, y } => {
                vstd::std_specs::vec::axiom_spec_len(&x.val);
                vstd::std_specs::vec::axiom_spec_len(&y.val);
            },
        }
    }

    proof fn lemma_parse_sound(b: Seq<u8>) {
        if b.len() >= 1 {
            if b[0] == AFFINE_INFINITY_TAG {
                assert(b.take(1) =~= seq![AFFINE_INFINITY_TAG]);
            } else if b[0] == AFFINE_COMPRESSED_TAG && b.len() >= 2 && (b[1] == 0 || b[1] == 1) {
                lemma_parse_limbs_sound(b.skip(2));
                if let Some((x, n)) = parse_limbs(b.skip(2)) {
                    assert(b.take(2 + n) =~= seq![b[0], b[1]] + b.skip(2).take(n));
                }
            } else if b[0] == AFFINE_UNCOMPRESSED_TAG {
                lemma_parse_limbs_sound(b.skip(1));
                if let Some((x, n0)) = parse_limbs(b.skip(1)) {
                    lemma_parse_limbs_sound(b.skip(1 + n0));
                    if let Some((y, n1)) = parse_limbs(b.skip(1 + n0)) {
                        lemma_limbs_enc_len(x);
                        lemma_limbs_enc_len(y);
                        assert(b.take(1 + n0 + n1) =~= seq![b[0]] + b.skip(1).take(n0) + b.skip(
                            1 + n0,
                        ).take(n1));
                    }
                }
            }
        }
    }

    proof fn lemma_parse_complete(v: SerializableAffineView<Seq<u64>>, b: Seq<u8>) {
        let e = affine_enc(v);
        assert(b[0] == e[0]) by {
            assert(b.take(e.len() as int)[0] == e[0]);
        }
        match v {
            SerializableAffineView::Infinity => {},
            SerializableAffineView::Compressed { x, take_largest_y } => {
                assert(b[1] == e[1]) by {
                    assert(b.take(e.len() as int)[1] == e[1]);
                }
                lemma_limbs_enc_len(x);
                assert(b.skip(2).take(limbs_enc(x).len() as int) =~= limbs_enc(x)) by {
                    assert forall|i: int| 0 <= i < limbs_enc(x).len() implies b.skip(2)[i] == e[2
                        + i] by {
                        assert(b.take(e.len() as int)[2 + i] == e[2 + i]);
                    }
                }
                lemma_parse_limbs_complete(x, b.skip(2));
            },
            SerializableAffineView::Uncompressed { x, y } => {
                lemma_limbs_enc_len(x);
                lemma_limbs_enc_len(y);
                let n0 = limbs_enc(x).len() as int;
                let n1 = limbs_enc(y).len() as int;
                assert(b.skip(1).take(n0) =~= limbs_enc(x)) by {
                    assert forall|i: int| 0 <= i < n0 implies b.skip(1)[i] == e[1 + i] by {
                        assert(b.take(e.len() as int)[1 + i] == e[1 + i]);
                    }
                }
                lemma_parse_limbs_complete(x, b.skip(1));
                assert(b.skip(1 + n0).take(n1) =~= limbs_enc(y)) by {
                    assert forall|i: int| 0 <= i < n1 implies #[trigger] (b.skip(1 + n0)[i]) == e[1
                        + n0 + i] by {
                        assert(b.take(e.len() as int)[1 + n0 + i] == e[1 + n0 + i]);
                    }
                }
                lemma_parse_limbs_complete(y, b.skip(1 + n0));
            },
        }
    }

    fn encode(&self, out: &mut Vec<u8>) {
        match self {
            SerializableAffine::Infinity => {
                write_u8(out, AFFINE_INFINITY_TAG);
            },
            SerializableAffine::Compressed { x, take_largest_y } => {
                write_u8(out, AFFINE_COMPRESSED_TAG);
                write_u8(
                    out,
                    if *take_largest_y {
                        1
                    } else {
                        0
                    },
                );
                write_u64s(out, &x.val);
            },
            SerializableAffine::Uncompressed { x, y } => {
                write_u8(out, AFFINE_UNCOMPRESSED_TAG);
                write_u64s(out, &x.val);
                write_u64s(out, &y.val);
            },
        }
        proof {
            assert(final(out)@ =~= old(out)@ + Self::spec_encoding(self@));
        }
    }

    fn decode(b: &[u8], pos: usize, limit: u64) -> (r: Result<(Self, usize), ()>) {
        let ghost tail = b@.skip(pos as int);
        proof {
            assert(b@.len() == vstd::slice::spec_slice_len(b));
        }
        if pos >= b.len() {
            return Err(());
        }
        let tag = b[pos];
        if tag == AFFINE_INFINITY_TAG {
            return Ok((SerializableAffine::Infinity, pos + 1));
        }
        if tag == AFFINE_COMPRESSED_TAG {
            if pos + 1 >= b.len() {
                return Err(());
            }
            let sb = b[pos + 1];
            proof {
                assert(tail[1] == b@[pos as int + 1]);
            }
            if sb != 0 && sb != 1 {
                return Err(());
            }
            proof {
                assert(tail.skip(2) =~= b@.skip(pos as int + 2));
                if let Some((x0, n0)) = parse_limbs(tail.skip(2)) {
                    lemma_parse_limbs_sound(tail.skip(2));
                    lemma_limbs_enc_len(x0);
                }
            }
            if limit != 0 && limit < 10 {
                return Err(());
            }
            let inner_limit: u64 = if limit == 0 {
                0
            } else {
                limit - 2
            };
            return match read_u64s(b, pos + 2, inner_limit) {
                Ok((val, end)) => Ok(
                    (
                        SerializableAffine::Compressed {
                            x: SerializableFp { val },
                            take_largest_y: sb == 1,
                        },
                        end,
                    ),
                ),
                Err(_) => Err(()),
            };
        }
        if tag != AFFINE_UNCOMPRESSED_TAG {
            return Err(());
        }
        proof {
            assert(tail.skip(1) =~= b@.skip(pos as int + 1));
        }
        let (xval, mid) = match read_u64s(b, pos + 1, limit) {
            Ok(p) => p,
            Err(_) => {
                return Err(());
            },
        };
        let used: u64 = (mid - pos) as u64;
        proof {
            lemma_parse_limbs_sound(tail.skip(1));
            if let Some((x0, n0)) = parse_limbs(tail.skip(1)) {
                assert(tail.skip(1 + n0) =~= b@.skip(mid as int));
                if let Some((y0, n1)) = parse_limbs(tail.skip(1 + n0)) {
                    lemma_parse_limbs_sound(tail.skip(1 + n0));
                    lemma_limbs_enc_len(y0);
                }
            }
        }
        if limit != 0 && used >= limit {
            return Err(());
        }
        let inner_limit: u64 = if limit == 0 {
            0
        } else {
            limit - used
        };
        match read_u64s(b, mid, inner_limit) {
            Ok((yval, end)) => Ok(
                (
                    SerializableAffine::Uncompressed {
                        x: SerializableFp { val: xval },
                        y: SerializableFp { val: yval },
                    },
                    end,
                ),
            ),
            Err(_) => Err(()),
        }
    }
}

impl ParameterSetConformant for SerializableAffine<SerializableFp> {
    type ParameterSet = ListSizeConstraint;

    open spec fn spec_is_conformant(
        v: SerializableAffineView<Seq<u64>>,
        parameter_set: ListSizeConstraint,
    ) -> bool {
        match v {
            SerializableAffineView::Infinity => true,
            SerializableAffineView::Compressed { x, .. } => parameter_set.spec_accepts(
                x.len() as int,
            ),
            SerializableAffineView::Uncompressed { x, y } => parameter_set.spec_accepts(
                x.len() as int,
            ) && parameter_set.spec_accepts(y.len() as int),
        }
    }

    fn is_conformant(&self, parameter_set: &ListSizeConstraint) -> (r: bool) {
        match self {
            SerializableAffine::Infinity => true,
            SerializableAffine::Compressed { x, .. } => parameter_set.min_inclusive <= x.val.len()
                && x.val.len() <= parameter_set.max_inclusive,
            SerializableAffine::Uncompressed { x, y } => parameter_set.min_inclusive
                <= x.val.len() && x.val.len() <= parameter_set.max_inclusive
                && parameter_set.min_inclusive <= y.val.len() && y.val.len()
                <= parameter_set.max_inclusive,
        }
    }
}

/// The tag of the one shape the serialized point ever had.
pub const AFFINE_SHAPE_TAG: u8 = 0;

impl BinaryCodec for SerializableAffineVersions<SerializableFp> {
    open spec fn spec_valid(v: SerializableAffineView<Seq<u64>>) -> bool {
        affine_valid(v)
    }

    open spec fn spec_encoding(v: SerializableAffineView<Seq<u64>>) -> Seq<u8> {
        seq![AFFINE_SHAPE_TAG] + affine_enc(v)
    }

    open spec fn spec_parse(b: Seq<u8>) -> Option<(SerializableAffineView<Seq<u64>>, int)> {
        if b.len() >= 1 && b[0] == AFFINE_SHAPE_TAG {
            match parse_affine(b.skip(1)) {
                Some((v, n)) => Some((v, 1 + n)),
                None => None,
            }
        } else {
            None
        }
    }

    proof fn lemma_valid(&self) {
        match self {
            SerializableAffineVersions::V0(a) => {
                a.lemma_valid();
            },
        }
    }

    proof fn lemma_parse_sound(b: Seq<u8>) {
        if b.len() >= 1 && b[0] == AFFINE_SHAPE_TAG {
            <SerializableG1Affine as BinaryCodec>::lemma_parse_sound(b.skip(1));
            if let Some((v, n)) = parse_affine(b.skip(1)) {
                assert(b.take(1 + n) =~= seq![AFFINE_SHAPE_TAG] + b.skip(1).take(n));
            }
        }
    }

    proof fn lemma_parse_complete(v: SerializableAffineView<Seq<u64>>, b: Seq<u8>) {
        let inner = affine_enc(v);
        let e = Self::spec_encoding(v);
        assert(b[0] == e[0]) by {
            assert(b.take(e.len() as int)[0] == e[0]);
        }
        assert(b.skip(1).take(inner.len() as int) =~= inner) by {
            assert forall|i: int| 0 <= i < inner.len() implies b.skip(1)[i] == inner[i] by {
                assert(b.take(e.len() as int)[1 + i] == e[1 + i]);
            }
        }
        <SerializableG1Affine as BinaryCodec>::lemma_parse_complete(v, b.skip(1));
    }

    fn encode(&self, out: &mut Vec<u8>) {
        write_u8(out, AFFINE_SHAPE_TAG);
        match self {
            SerializableAffineVersions::V0(a) => {
                a.encode(out);
            },
        }
        proof {
            assert(final(out)@ =~= old(out)@ + Self::spec_encoding(self@));
        }
    }

    fn decode(b: &[u8], pos: usize, limit: u64) -> (r: Result<(Self, usize), ()>) {
        if pos >= b.len() {
            return Err(());
        }
        if b[pos] != AFFINE_SHAPE_TAG {
            return Err(());
        }
        if limit == 1 {
            proof {
                if let Some((v, n)) = parse_affine(b@.skip(pos as int).skip(1)) {
                    <SerializableG1Affine as BinaryCodec>::lemma_parse_sound(
                        b@.skip(pos as int).skip(1),
                    );
                }
            }
            return Err(());
        }
        let inner_limit: u64 = if limit == 0 {
            0
        } else {
            limit - 1
        };
        proof {
            assert(b@.skip(pos as int).skip(1) =~= b@.skip(pos as int + 1));
        }
        match <SerializableG1Affine as BinaryCodec>::decode(b, pos + 1, inner_limit) {
            Ok((a, end)) => Ok((SerializableAffineVersions::V0(a), end)),
            Err(_) => Err(()),
        }
    }
}

impl Named for SerializableCubicExtField<SerializableFp2> {
    open spec fn spec_name() -> Seq<u8> {
        ascii_bytes("SerializableCubicExtField"@)
    }

    proof fn lemma_name_len() {
        reveal_strlit("SerializableCubicExtField");
    }

    fn name_bytes() -> (r: Vec<u8>) {
        proof {
            reveal_strlit("SerializableCubicExtField");
        }
        str_to_bytes("SerializableCubicExtField")
    }
}

impl BinaryCodec for SerializableCubicExtField<SerializableFp2> {
    open spec fn spec_valid(v: <SerializableFp6 as View>::V) -> bool {
        <SerializableFp2 as BinaryCodec>::spec_valid(v.0) && <SerializableFp2 as BinaryCodec>::spec_valid(
            v.1,
        ) && <SerializableFp2 as BinaryCodec>::spec_valid(v.2)
    }

    open spec fn spec_encoding(v: <SerializableFp6 as View>::V) -> Seq<u8> {
        <SerializableFp2 as BinaryCodec>::spec_encoding(v.0)
            + <SerializableFp2 as BinaryCodec>::spec_encoding(v.1)
            + <SerializableFp2 as BinaryCodec>::spec_encoding(v.2)
    }

    open spec fn spec_parse(b: Seq<u8>) -> Option<(<SerializableFp6 as View>::V, int)> {
        match <SerializableFp2 as BinaryCodec>::spec_parse(b) {
            None => None,
            Some((c0, n0)) => match <SerializableFp2 as BinaryCodec>::spec_parse(b.skip(n0)) {
                None => None,
                Some((c1, n1)) => match <SerializableFp2 as BinaryCodec>::spec_parse(
                    b.skip(n0 + n1),
                ) {
                    None => None,
                    Some((c2, n2)) => Some(((c0, c1, c2), n0 + n1 + n2)),
                },
            },
        }
    }

    proof fn lemma_valid(&self) {
        self.c0.lemma_valid();
        self.c1.lemma_valid();
        self.c2.lemma_valid();
    }

    proof fn lemma_parse_sound(b: Seq<u8>) {
        <SerializableFp2 as BinaryCodec>::lemma_parse_sound(b);
        if let Some((c0, n0)) = <SerializableFp2 as BinaryCodec>::spec_parse(b) {
            <SerializableFp2 as BinaryCodec>::lemma_parse_sound(b.skip(n0));
            if let Some((c1, n1)) = <SerializableFp2 as BinaryCodec>::spec_parse(b.skip(n0)) {
                <SerializableFp2 as BinaryCodec>::lemma_parse_sound(b.skip(n0 + n1));
                if let Some((c2, n2)) = <SerializableFp2 as BinaryCodec>::spec_parse(
                    b.skip(n0 + n1),
                ) {
                    assert(b.skip(n0).take(n1) =~= b.skip(n0).take(n1));
                    assert(b.take(n0 + n1 + n2) =~= b.take(n0) + b.skip(n0).take(n1) + b.skip(
                        n0 + n1,
                    ).take(n2));
                }
            }
        }
    }

    proof fn lemma_parse_complete(v: <SerializableFp6 as View>::V, b: Seq<u8>) {
        let e0 = <SerializableFp2 as BinaryCodec>::spec_encoding(v.0);
        let e1 = <SerializableFp2 as BinaryCodec>::spec_encoding(v.1);
        let e2 = <SerializableFp2 as BinaryCodec>::spec_encoding(v.2);
        let e = Self::spec_encoding(v);
        let n0 = e0.len() as int;
        let n1 = e1.len() as int;
        let n2 = e2.len() as int;
        assert(b.take(n0) =~= e0) by {
            assert forall|i: int| 0 <= i < n0 implies b[i] == e0[i] by {
                assert(b.take(e.len() as int)[i] == e[i]);
            }
        }
        <SerializableFp2 as BinaryCodec>::lemma_parse_complete(v.0, b);
        assert(b.skip(n0).take(n1) =~= e1) by {
            assert forall|i: int| 0 <= i < n1 implies #[trigger] (b.skip(n0)[i]) == e1[i] by {
                assert(b.take(e.len() as int)[n0 + i] == e[n0 + i]);
            }
        }
        <SerializableFp2 as BinaryCodec>::lemma_parse_complete(v.1, b.skip(n0));
        assert(b.skip(n0 + n1).take(n2) =~= e2) by {
            assert forall|i: int| 0 <= i < n2 implies #[trigger] (b.skip(n0 + n1)[i]) == e2[i] by {
                assert(b.take(e.len() as int)[n0 + n1 + i] == e[n0 + n1 + i]);
            }
        }
        <SerializableFp2 as BinaryCodec>::lemma_parse_complete(v.2, b.skip(n0 + n1));
    }

    fn encode(&self, out: &mut Vec<u8>) {
        self.c0.encode(out);
        self.c1.encode(out);
        self.c2.encode(out);
        proof {
            assert(final(out)@ =~= old(out)@ + Self::spec_encoding(self@));
        }
    }

    #[verifier::rlimit(60)]
    fn decode(b: &[u8], pos: usize, limit: u64) -> (r: Result<(Self, usize), ()>) {
        let ghost tail = b@.skip(pos as int);
        let (c0, p1) = match <SerializableFp2 as BinaryCodec>::decode(b, pos, limit) {
            Ok(p) => p,
            Err(_) => {
                return Err(());
            },
        };
        let used1: u64 = (p1 - pos) as u64;
        proof {
            <SerializableFp2 as BinaryCodec>::lemma_parse_sound(tail);
            if let Some((v0, n0)) = <SerializableFp2 as BinaryCodec>::spec_parse(tail) {
                assert(tail.skip(n0) =~= b@.skip(p1 as int));
                <SerializableFp2 as BinaryCodec>::lemma_parse_sound(tail.skip(n0));
                if let Some((v1, n1)) = <SerializableFp2 as BinaryCodec>::spec_parse(
                    tail.skip(n0),
                ) {
                    assert(tail.skip(n0 + n1) =~= b@.skip(p1 as int).skip(n1));
                }
            }
        }
        if limit != 0 && used1 >= limit {
            return Err(());
        }
        let rem1: u64 = if limit == 0 {
            0
        } else {
            limit - used1
        };
        let (c1, p2) = match <SerializableFp2 as BinaryCodec>::decode(b, p1, rem1) {
            Ok(p) => p,
            Err(_) => {
                return Err(());
            },
        };
        let used2: u64 = (p2 - pos) as u64;
        proof {
            <SerializableFp2 as BinaryCodec>::lemma_parse_sound(b@.skip(p1 as int));
            if let Some((v1, n1)) = <SerializableFp2 as BinaryCodec>::spec_parse(
                b@.skip(p1 as int),
            ) {
                assert(b@.skip(p1 as int).skip(n1) =~= b@.skip(p2 as int));
                <SerializableFp2 as BinaryCodec>::lemma_parse_sound(b@.skip(p2 as int));
            }
        }
        if limit != 0 && used2 >= limit {
            return Err(());
        }
        let rem2: u64 = if limit == 0 {
            0
        } else {
            limit - used2
        };
        match <SerializableFp2 as BinaryCodec>::decode(b, p2, rem2) {
            Ok((c2, end)) => Ok((SerializableCubicExtField { c0, c1, c2 }, end)),
            Err(_) => Err(()),
        }
    }
}

impl ParameterSetConformant for SerializableCubicExtField<SerializableFp2> {
    type ParameterSet = ListSizeConstraint;

    open spec fn spec_is_conformant(
        v: <SerializableFp6 as View>::V,
        parameter_set: ListSizeConstraint,
    ) -> bool {
        <SerializableFp2 as ParameterSetConformant>::spec_is_conformant(v.0, parameter_set)
            && <SerializableFp2 as ParameterSetConformant>::spec_is_conformant(v.1, parameter_set)
            && <SerializableFp2 as ParameterSetConformant>::spec_is_conformant(v.2, parameter_set)
    }

    fn is_conformant(&self, parameter_set: &ListSizeConstraint) -> (r: bool) {
        self.c0.is_conformant(parameter_set) && self.c1.is_conformant(parameter_set)
            && self.c2.is_conformant(parameter_set)
    }
}

/// The tag of the one shape the cubic extension element ever had.
pub const CUBIC_SHAPE_TAG: u8 = 0;

impl BinaryCodec for SerializableCubicExtFieldVersions<SerializableFp2> {
    open spec fn spec_valid(v: <SerializableFp6 as View>::V) -> bool {
        <SerializableFp6 as BinaryCodec>::spec_valid(v)
    }

    open spec fn spec_encoding(v: <SerializableFp6 as View>::V) -> Seq<u8> {
        seq![CUBIC_SHAPE_TAG] + <SerializableFp6 as BinaryCodec>::spec_encoding(v)
    }

    open spec fn spec_parse(b: Seq<u8>) -> Option<(<SerializableFp6 as View>::V, int)> {
        if b.len() >= 1 && b[0] == CUBIC_SHAPE_TAG {
            match <SerializableFp6 as BinaryCodec>::spec_parse(b.skip(1)) {
                Some((v, n)) => Some((v, 1 + n)),
                None => None,
            }
        } else {
            None
        }
    }

    proof fn lemma_valid(&self) {
        match self {
            SerializableCubicExtFieldVersions::V0(c) => {
                c.lemma_valid();
            },
        }
    }

    proof fn lemma_parse_sound(b: Seq<u8>) {
        if b.len() >= 1 && b[0] == CUBIC_SHAPE_TAG {
            <SerializableFp6 as BinaryCodec>::lemma_parse_sound(b.skip(1));
            if let Some((v, n)) = <SerializableFp6 as BinaryCodec>::spec_parse(b.skip(1)) {
                assert(b.take(1 + n) =~= seq![CUBIC_SHAPE_TAG] + b.skip(1).take(n));
            }
        }
    }

    proof fn lemma_parse_complete(v: <SerializableFp6 as View>::V, b: Seq<u8>) {
        let inner = <SerializableFp6 as BinaryCodec>::spec_encoding(v);
        let e = Self::spec_encoding(v);
        assert(b[0] == e[0]) by {
            assert(b.take(e.len() as int)[0] == e[0]);
        }
        assert(b.skip(1).take(inner.len() as int) =~= inner) by {
            assert forall|i: int| 0 <= i < inner.len() implies b.skip(1)[i] == inner[i] by {
                assert(b.take(e.len() as int)[1 + i] == e[1 + i]);
            }
        }
        <SerializableFp6 as BinaryCodec>::lemma_parse_complete(v, b.skip(1));
    }

    fn encode(&self, out: &mut Vec<u8>) {
        write_u8(out, CUBIC_SHAPE_TAG);
        match self {
            SerializableCubicExtFieldVersions::V0(c) => {
                c.encode(out);
            },
        }
        proof {
            assert(final(out)@ =~= old(out)@ + Self::spec_encoding(self@));
        }
    }

    fn decode(b: &[u8], pos: usize, limit: u64) -> (r: Result<(Self, usize), ()>) {
        if pos >= b.len() {
            return Err(());
        }
        if b[pos] != CUBIC_SHAPE_TAG {
            return Err(());
        }
        if limit == 1 {
            proof {
                if let Some((v, n)) = <SerializableFp6 as BinaryCodec>::spec_parse(
                    b@.skip(pos as int).skip(1),
                ) {
                    <SerializableFp6 as BinaryCodec>::lemma_parse_sound(b@.skip(pos as int).skip(1));
                }
            }
            return Err(());
        }
        let inner_limit: u64 = if limit == 0 {
            0
        } else {
            limit - 1
        };
        proof {
            assert(b@.skip(pos as int).skip(1) =~= b@.skip(pos as int + 1));
        }
        match <SerializableFp6 as BinaryCodec>::decode(b, pos + 1, inner_limit) {
            Ok((c, end)) => Ok((SerializableCubicExtFieldVersions::V0(c), end)),
            Err(_) => Err(()),
        }
    }
}

} // verus!
