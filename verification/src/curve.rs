//! Bridge to the elliptic-curve arithmetic engine, consumed as an opaque
//! capability: field negation, the field's total order, the point-on-curve
//! test and point decompression. Raw representations are limb sequences;
//! their meaning is fixed by `limb_value` and `canonical_value`, and each
//! trusted item below states what the engine returns over those.
use vstd::prelude::*;

use crate::fields::SerializableFp;

verus! {

/// Base of one limb: 2^64.
pub open spec fn limb_base() -> int {
    0x1_0000_0000_0000_0000
}

/// The integer denoted by a little-endian limb sequence.
pub open spec fn limb_value(s: Seq<u64>) -> int
    decreases s.len(),
{
    if s.len() == 0 {
        0
    } else {
        s[0] + limb_base() * limb_value(s.skip(1))
    }
}

/// The prime modulus of the curve's base field.
pub open spec fn fp_modulus() -> int {
    0x1a0111ea397fe69a4b1ba7b6434bacd764774b84f38512bf6730d2a0f6b0f6241eabfffeb153ffffb9feffffffffaaabint
}

/// The inverse of 2^384 modulo the modulus: raw limb representations carry
/// this internal factor, and the canonical value divides it back out.
pub open spec fn fp_r_inv() -> int {
    0x14fec701e8fb0ce9ed5e64273c4f538b1797ab1458a88de9343ea97914956dc87fe11274d898fafbf4d38259380b4820int
}

/// 2^384 modulo the modulus.
pub open spec fn fp_r() -> int {
    0x15f65ec3fa80e4935c071a97a256ec6d77ce5853705257455f48985753c758baebf4000bc40c0002760900000002fffdint
}

/// The canonical field value denoted by a raw representation value.
pub open spec fn canonical_value(v: int) -> int {
    (v * fp_r_inv()) % fp_modulus()
}

/// A raw representation is valid when it has exactly six limbs and denotes
/// an integer below the modulus.
pub open spec fn fp_valid(s: Seq<u64>) -> bool {
    s.len() == 6 && limb_value(s) < fp_modulus()
}

/// The raw value of the field negation of raw value `v`.
pub open spec fn fp_neg_value(v: int) -> int {
    if v == 0 {
        0
    } else {
        fp_modulus() - v
    }
}

/// The canonical-sign bit of a y coordinate: set exactly when y is strictly
/// larger than -y in the field's total order over canonical values.
pub open spec fn sign_of(y: Seq<u64>) -> bool {
    canonical_value(limb_value(y)) > canonical_value(fp_neg_value(limb_value(y)))
}

/// What point decompression returns for an x coordinate and a sign choice:
/// the matching y coordinate, or nothing when no point with that x lies on
/// the curve.
pub uninterp spec fn g1_sqrt_y(x: Seq<u64>, greatest: bool) -> Option<Seq<u64>>;

/// What the engine's point-on-curve test returns for raw coordinates.
pub uninterp spec fn g1_on_curve(x: Seq<u64>, y: Seq<u64>) -> bool;

/// Relies on the field backend's negation (`MODULUS - raw` for nonzero raw,
/// zero kept): the result denotes exactly the negated value and stays below
/// the modulus.
#[verifier::external_body]
pub(crate) fn fp_neg(a: &SerializableFp) -> (r: SerializableFp)
    requires
        fp_valid(a@),
    ensures
        fp_valid(r@),
        limb_value(r@) == fp_neg_value(limb_value(a@)),
{
    let limbs: [u64; 6] = a.val.clone().try_into().unwrap();
    let f: ark_bls12_381::Fq = ark_ff::Fp(ark_ff::BigInt(limbs), core::marker::PhantomData);
    SerializableFp { val: (-f).0.0.to_vec() }
}

/// Relies on the field's `Ord`, which compares canonical values (the raw
/// representation divided by 2^384 modulo the modulus, with no final
/// reduction step — hence only reduced representations are admitted).
#[verifier::external_body]
pub(crate) fn fp_gt(a: &SerializableFp, b: &SerializableFp) -> (r: bool)
    requires
        fp_valid(a@),
        fp_valid(b@),
    ensures
        r == (canonical_value(limb_value(a@)) > canonical_value(limb_value(b@))),
{
    let la: [u64; 6] = a.val.clone().try_into().unwrap();
    let lb: [u64; 6] = b.val.clone().try_into().unwrap();
    let fa: ark_bls12_381::Fq = ark_ff::Fp(ark_ff::BigInt(la), core::marker::PhantomData);
    let fb: ark_bls12_381::Fq = ark_ff::Fp(ark_ff::BigInt(lb), core::marker::PhantomData);
    fa > fb
}

/// Relies on `Affine::get_point_from_x_unchecked`: for a reduced x it
/// returns a point on the curve with that x exactly when the curve
/// equation at x has a square root — independently of the sign choice,
/// which only selects which of the two roots comes back. The engine's
/// field arithmetic assumes reduced operands, so only those are admitted.
#[verifier::external_body]
pub(crate) fn g1_point_from_x(x: &SerializableFp, greatest: bool) -> (r: Option<SerializableFp>)
    requires
        fp_valid(x@),
    ensures
        r matches Some(y) ==> g1_sqrt_y(x@, greatest) == Some(y@) && fp_valid(y@) && g1_on_curve(
            x@,
            y@,
        ),
        r is None ==> g1_sqrt_y(x@, greatest) is None,
        r is Some <==> g1_sqrt_y(x@, !greatest) is Some,
{
    let limbs: [u64; 6] = x.val.clone().try_into().unwrap();
    let xf: ark_bls12_381::Fq = ark_ff::Fp(ark_ff::BigInt(limbs), core::marker::PhantomData);
    ark_ec::short_weierstrass::Affine::<ark_bls12_381::g1::Config>::get_point_from_x_unchecked(
        xf,
        greatest,
    ).map(|p| SerializableFp { val: p.y.0.0.to_vec() })
}

/// Relies on `Affine::is_on_curve` and `get_ys_from_x_unchecked`: the two
/// points with a given x are y and -y, sorted by canonical value, so for a
/// valid on-curve pair, decompressing x with y's own canonical-sign bit
/// returns exactly y. The engine's field arithmetic assumes reduced
/// operands, so only those are admitted.
#[verifier::external_body]
pub(crate) fn g1_check_on_curve(x: &SerializableFp, y: &SerializableFp) -> (r: bool)
    requires
        fp_valid(x@),
        fp_valid(y@),
    ensures
        r == g1_on_curve(x@, y@),
        r && fp_valid(x@) && fp_valid(y@) ==> g1_sqrt_y(x@, sign_of(y@)) == Some(y@),
{
    let lx: [u64; 6] = x.val.clone().try_into().unwrap();
    let ly: [u64; 6] = y.val.clone().try_into().unwrap();
    let fx: ark_bls12_381::Fq = ark_ff::Fp(ark_ff::BigInt(lx), core::marker::PhantomData);
    let fy: ark_bls12_381::Fq = ark_ff::Fp(ark_ff::BigInt(ly), core::marker::PhantomData);
    ark_ec::short_weierstrass::Affine::<ark_bls12_381::g1::Config>::new_unchecked(
        fx,
        fy,
    ).is_on_curve()
}

/// A six-limb value written out as one linear combination of its limbs.
pub proof fn lemma_limb_value6(s: Seq<u64>)
    requires
        s.len() == 6,
    ensures
        limb_value(s) == s[0] + 0x1_0000_0000_0000_0000int * s[1]
            + 0x1_0000_0000_0000_0000_0000_0000_0000_0000int * s[2]
            + 0x1_0000_0000_0000_0000_0000_0000_0000_0000_0000_0000_0000_0000int * s[3]
            + 0x1_0000_0000_0000_0000_0000_0000_0000_0000_0000_0000_0000_0000_0000_0000_0000_0000int
            * s[4]
            + 0x1_0000_0000_0000_0000_0000_0000_0000_0000_0000_0000_0000_0000_0000_0000_0000_0000_0000_0000_0000_0000int
            * s[5],
{
    assert(s.skip(1).skip(1) =~= s.skip(2));
    assert(s.skip(2).skip(1) =~= s.skip(3));
    assert(s.skip(3).skip(1) =~= s.skip(4));
    assert(s.skip(4).skip(1) =~= s.skip(5));
    assert(s.skip(5).skip(1) =~= s.skip(6));
    assert(s.skip(6).len() == 0);
    assert(limb_value(s.skip(6)) == 0);
    assert(limb_value(s.skip(5)) == s[5] + limb_base() * limb_value(s.skip(6)));
    assert(limb_value(s.skip(4)) == s[4] + limb_base() * limb_value(s.skip(5)));
    assert(limb_value(s.skip(3)) == s[3] + limb_base() * limb_value(s.skip(4)));
    assert(limb_value(s.skip(2)) == s[2] + limb_base() * limb_value(s.skip(3)));
    assert(limb_value(s.skip(1)) == s[1] + limb_base() * limb_value(s.skip(2)));
    assert(limb_value(s) == s[0] + limb_base() * limb_value(s.skip(1)));
}

/// Whether a six-limb raw representation denotes a value below the
/// modulus, decided limb by limb from the most significant end.
pub(crate) fn fp_in_range(a: &SerializableFp) -> (r: bool)
    requires
        a@.len() == 6,
    ensures
        r == (limb_value(a@) < fp_modulus()),
{
    proof {
        lemma_limb_value6(a@);
    }
    let v = &a.val;
    if v[5] != 0x1a0111ea397fe69a {
        return v[5] < 0x1a0111ea397fe69a;
    }
    if v[4] != 0x4b1ba7b6434bacd7 {
        return v[4] < 0x4b1ba7b6434bacd7;
    }
    if v[3] != 0x64774b84f38512bf {
        return v[3] < 0x64774b84f38512bf;
    }
    if v[2] != 0x6730d2a0f6b0f624 {
        return v[2] < 0x6730d2a0f6b0f624;
    }
    if v[1] != 0x1eabfffeb153ffff {
        return v[1] < 0x1eabfffeb153ffff;
    }
    v[0] < 0xb9feffffffffaaab
}

/// The canonical value map is injective on raw values below the modulus.
pub proof fn lemma_canonical_injective(a: int, b: int)
    requires
        0 <= a < fp_modulus(),
        0 <= b < fp_modulus(),
        a != b,
    ensures
        canonical_value(a) != canonical_value(b),
{
    if canonical_value(a) == canonical_value(b) {
        lemma_canonical_round_trip(a);
        lemma_canonical_round_trip(b);
    }
}

/// Multiplying a canonical value back by 2^384 modulo the modulus recovers
/// the raw value it came from.
pub proof fn lemma_canonical_round_trip(a: int)
    requires
        0 <= a < fp_modulus(),
    ensures
        (canonical_value(a) * fp_r()) % fp_modulus() == a,
{
    let p = fp_modulus();
    let rinv = fp_r_inv();
    let r = fp_r();
    assert((rinv * r) % p == 1);
    vstd::arithmetic::div_mod::lemma_mul_mod_noop_general(a * rinv, r, p);
    vstd::arithmetic::mul::lemma_mul_is_associative(a, rinv, r);
    assert((a * ((rinv * r) % p)) % p == (a * (rinv * r)) % p) by {
        vstd::arithmetic::div_mod::lemma_mul_mod_noop_general(a, rinv * r, p);
    }
    assert(a * 1 == a);
    vstd::arithmetic::div_mod::lemma_small_mod(a as nat, p as nat);
}

} // verus!
