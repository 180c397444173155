//! Deterministic fixed-width binary primitives: little-endian integers and
//! length-prefixed sequences. Every encoder has an exact byte-level
//! specification and every parser is proved to be its inverse on prefixes.
use vstd::prelude::*;

verus! {

/// The eight little-endian bytes of a `u64`.
pub open spec fn u64_le(v: u64) -> Seq<u8> {
    seq![
        (v & 0xff) as u8,
        ((v >> 8) & 0xff) as u8,
        ((v >> 16) & 0xff) as u8,
        ((v >> 24) & 0xff) as u8,
        ((v >> 32) & 0xff) as u8,
        ((v >> 40) & 0xff) as u8,
        ((v >> 48) & 0xff) as u8,
        ((v >> 56) & 0xff) as u8,
    ]
}

/// The `u64` denoted by eight little-endian bytes.
pub open spec fn u64_from_le(s: Seq<u8>) -> u64
    recommends
        s.len() == 8,
{
    (s[0] as u64) | ((s[1] as u64) << 8) | ((s[2] as u64) << 16) | ((s[3] as u64) << 24)
        | ((s[4] as u64) << 32) | ((s[5] as u64) << 40) | ((s[6] as u64) << 48) | ((s[7]
        as u64) << 56)
}

/// Parse a `u64` from the front of `b`: eight bytes, little endian.
pub open spec fn parse_u64(b: Seq<u8>) -> Option<(u64, int)> {
    if b.len() >= 8 {
        Some((u64_from_le(b.take(8)), 8int))
    } else {
        None
    }
}

pub proof fn lemma_u64_le_from(v: u64)
    ensures
        u64_from_le(u64_le(v)) == v,
        u64_le(v).len() == 8,
{
    assert((((v & 0xff) as u8) as u64) | ((((v >> 8) & 0xff) as u8) as u64) << 8 | ((((v >> 16)
        & 0xff) as u8) as u64) << 16 | ((((v >> 24) & 0xff) as u8) as u64) << 24 | ((((v >> 32)
        & 0xff) as u8) as u64) << 32 | ((((v >> 40) & 0xff) as u8) as u64) << 40 | ((((v >> 48)
        & 0xff) as u8) as u64) << 48 | ((((v >> 56) & 0xff) as u8) as u64) << 56 == v)
        by (bit_vector);
}

pub proof fn lemma_u64_from_le_le(s: Seq<u8>)
    requires
        s.len() == 8,
    ensures
        u64_le(u64_from_le(s)) == s,
{
    let b0 = s[0];
    let b1 = s[1];
    let b2 = s[2];
    let b3 = s[3];
    let b4 = s[4];
    let b5 = s[5];
    let b6 = s[6];
    let b7 = s[7];
    let v = (b0 as u64) | ((b1 as u64) << 8) | ((b2 as u64) << 16) | ((b3 as u64) << 24) | ((b4
        as u64) << 32) | ((b5 as u64) << 40) | ((b6 as u64) << 48) | ((b7 as u64) << 56);
    assert((v & 0xff) as u8 == b0 && ((v >> 8) & 0xff) as u8 == b1 && ((v >> 16) & 0xff) as u8
        == b2 && ((v >> 24) & 0xff) as u8 == b3 && ((v >> 32) & 0xff) as u8 == b4 && ((v >> 40)
        & 0xff) as u8 == b5 && ((v >> 48) & 0xff) as u8 == b6 && ((v >> 56) & 0xff) as u8 == b7)
        by (bit_vector)
        requires
            v == (b0 as u64) | ((b1 as u64) << 8) | ((b2 as u64) << 16) | ((b3 as u64) << 24) | (
            (b4 as u64) << 32) | ((b5 as u64) << 40) | ((b6 as u64) << 48) | ((b7 as u64) << 56),
    ;
    assert(u64_le(u64_from_le(s)) =~= s);
}

/// Append the little-endian bytes of `v` to `out`.
pub fn write_u64(out: &mut Vec<u8>, v: u64)
    ensures
        final(out)@ == old(out)@ + u64_le(v),
{
    proof {
        assert((v & 0xff) < 256 && ((v >> 8) & 0xff) < 256 && ((v >> 16) & 0xff) < 256 && ((v
            >> 24) & 0xff) < 256 && ((v >> 32) & 0xff) < 256 && ((v >> 40) & 0xff) < 256 && ((v
            >> 48) & 0xff) < 256 && ((v >> 56) & 0xff) < 256) by (bit_vector);
    }
    out.push((v & 0xff) as u8);
    out.push(((v >> 8) & 0xff) as u8);
    out.push(((v >> 16) & 0xff) as u8);
    out.push(((v >> 24) & 0xff) as u8);
    out.push(((v >> 32) & 0xff) as u8);
    out.push(((v >> 40) & 0xff) as u8);
    out.push(((v >> 48) & 0xff) as u8);
    out.push(((v >> 56) & 0xff) as u8);
    proof {
        assert(out@ =~= old(out)@ + u64_le(v));
    }
}

/// Read the `u64` encoded at `b[pos..pos + 8]`.
pub fn read_u64(b: &[u8], pos: usize) -> (r: u64)
    requires
        pos + 8 <= b@.len(),
    ensures
        r == u64_from_le(b@.subrange(pos as int, pos as int + 8)),
{
    let r = (b[pos] as u64) | ((b[pos + 1] as u64) << 8) | ((b[pos + 2] as u64) << 16) | ((b[pos
        + 3] as u64) << 24) | ((b[pos + 4] as u64) << 32) | ((b[pos + 5] as u64) << 40) | ((b[pos
        + 6] as u64) << 48) | ((b[pos + 7] as u64) << 56);
    proof {
        let s = b@.subrange(pos as int, pos as int + 8);
        assert(s[0] == b@[pos as int] && s[1] == b@[pos as int + 1] && s[2] == b@[pos as int + 2]
            && s[3] == b@[pos as int + 3] && s[4] == b@[pos as int + 4] && s[5] == b@[pos as int
            + 5] && s[6] == b@[pos as int + 6] && s[7] == b@[pos as int + 7]);
    }
    r
}

/// The sixteen little-endian bytes of a `u128`: low word first.
pub open spec fn u128_le(v: u128) -> Seq<u8> {
    u64_le((v & 0xffff_ffff_ffff_ffff) as u64) + u64_le((v >> 64) as u64)
}

/// Parse a `u128` from the front of `b`: sixteen bytes, little endian.
pub open spec fn parse_u128(b: Seq<u8>) -> Option<(u128, int)> {
    if b.len() >= 16 {
        Some(
            (
                (u64_from_le(b.take(8)) as u128) | ((u64_from_le(b.subrange(8, 16)) as u128)
                    << 64),
                16int,
            ),
        )
    } else {
        None
    }
}

pub proof fn lemma_u128_le_from(v: u128)
    ensures
        parse_u128(u128_le(v)) == Some((v, 16int)),
        u128_le(v).len() == 16,
{
    let lo = (v & 0xffff_ffff_ffff_ffff) as u64;
    let hi = (v >> 64) as u64;
    lemma_u64_le_from(lo);
    lemma_u64_le_from(hi);
    assert(u128_le(v).take(8) =~= u64_le(lo));
    assert(u128_le(v).subrange(8, 16) =~= u64_le(hi));
    assert((lo as u128) | ((hi as u128) << 64) == v) by (bit_vector)
        requires
            lo == (v & 0xffff_ffff_ffff_ffff) as u64,
            hi == (v >> 64) as u64,
    ;
}

pub proof fn lemma_u128_from_le_le(s: Seq<u8>)
    requires
        s.len() == 16,
    ensures
        u128_le(parse_u128(s)->Some_0.0) == s,
{
    let a = u64_from_le(s.take(8));
    let b = u64_from_le(s.subrange(8, 16));
    let v = (a as u128) | ((b as u128) << 64);
    assert((v & 0xffff_ffff_ffff_ffff) as u64 == a && (v >> 64) as u64 == b) by (bit_vector)
        requires
            v == (a as u128) | ((b as u128) << 64),
    ;
    lemma_u64_from_le_le(s.take(8));
    lemma_u64_from_le_le(s.subrange(8, 16));
    assert(u128_le(v) =~= s);
}

/// Append the little-endian bytes of `v` to `out`.
pub fn write_u128(out: &mut Vec<u8>, v: u128)
    ensures
        final(out)@ == old(out)@ + u128_le(v),
{
    proof {
        assert((v & 0xffff_ffff_ffff_ffff) < 0x1_0000_0000_0000_0000 && (v >> 64)
            < 0x1_0000_0000_0000_0000) by (bit_vector);
    }
    write_u64(out, (v & 0xffff_ffff_ffff_ffff) as u64);
    write_u64(out, (v >> 64) as u64);
    proof {
        assert(final(out)@ =~= old(out)@ + u128_le(v));
    }
}

/// Read the `u128` encoded at `b[pos..pos + 16]`.
pub fn read_u128(b: &[u8], pos: usize) -> (r: u128)
    requires
        pos + 16 <= b@.len(),
    ensures
        Some((r, 16int)) == parse_u128(b@.skip(pos as int)),
{
    proof {
        assert(b@.len() == vstd::slice::spec_slice_len(b));
    }
    let lo = read_u64(b, pos);
    let hi = read_u64(b, pos + 8);
    proof {
        let tail = b@.skip(pos as int);
        assert(tail.take(8) =~= b@.subrange(pos as int, pos as int + 8));
        assert(tail.subrange(8, 16) =~= b@.subrange(pos as int + 8, pos as int + 16));
    }
    (lo as u128) | ((hi as u128) << 64)
}

/// The bytes of a sequence of limbs, one `u64_le` block per limb, in order.
pub open spec fn u64s_bytes(s: Seq<u64>) -> Seq<u8>
    decreases s.len(),
{
    if s.len() == 0 {
        Seq::empty()
    } else {
        u64s_bytes(s.drop_last()) + u64_le(s.last())
    }
}

pub proof fn lemma_u64s_bytes_len(s: Seq<u64>)
    ensures
        u64s_bytes(s).len() == 8 * s.len(),
    decreases s.len(),
{
    if s.len() > 0 {
        lemma_u64s_bytes_len(s.drop_last());
    }
}

pub proof fn lemma_u64s_bytes_index(s: Seq<u64>, i: int)
    requires
        0 <= i < s.len(),
    ensures
        u64s_bytes(s).subrange(8 * i, 8 * i + 8) == u64_le(s[i]),
    decreases s.len(),
{
    lemma_u64s_bytes_len(s);
    lemma_u64s_bytes_len(s.drop_last());
    if i == s.len() - 1 {
        assert(u64s_bytes(s).subrange(8 * i, 8 * i + 8) =~= u64_le(s[i]));
    } else {
        lemma_u64s_bytes_index(s.drop_last(), i);
        assert(u64s_bytes(s).subrange(8 * i, 8 * i + 8) =~= u64s_bytes(s.drop_last()).subrange(8
            * i, 8 * i + 8));
    }
}

/// A sequence of bytes whose 8-byte blocks each encode the matching limb is
/// exactly `u64s_bytes`.
pub proof fn lemma_u64s_bytes_eq(s: Seq<u64>, t: Seq<u8>)
    requires
        t.len() == 8 * s.len(),
        forall|i: int| 0 <= i < s.len() ==> t.subrange(8 * i, 8 * i + 8) == u64_le(s[i]),
    ensures
        t == u64s_bytes(s),
{
    lemma_u64s_bytes_len(s);
    assert forall|j: int| 0 <= j < t.len() implies t[j] == u64s_bytes(s)[j] by {
        let i = j / 8;
        let k = j % 8;
        assert(0 <= k < 8 && j == 8 * i + k && 0 <= i < s.len()) by (nonlinear_arith)
            requires
                0 <= j < 8 * s.len(),
                i == j / 8,
                k == j % 8,
        ;
        lemma_u64s_bytes_index(s, i);
        assert(t.subrange(8 * i, 8 * i + 8)[k] == t[j]);
        assert(u64s_bytes(s).subrange(8 * i, 8 * i + 8)[k] == u64s_bytes(s)[j]);
    }
    assert(t =~= u64s_bytes(s));
}

/// Length-prefixed encoding of a limb sequence: the count, then each limb.
pub open spec fn limbs_enc(s: Seq<u64>) -> Seq<u8>
    recommends
        s.len() < 0x1_0000_0000_0000_0000,
{
    u64_le(s.len() as u64) + u64s_bytes(s)
}

/// Parse a length-prefixed limb sequence from the front of `b`.
pub open spec fn parse_limbs(b: Seq<u8>) -> Option<(Seq<u64>, int)> {
    match parse_u64(b) {
        None => None,
        Some((n, _)) => {
            if 8 + 8 * (n as int) <= b.len() {
                Some(
                    (
                        Seq::new(n as nat, |i: int| u64_from_le(b.subrange(8 + 8 * i, 8 + 8 * i + 8))),
                        8 + 8 * (n as int),
                    ),
                )
            } else {
                None
            }
        },
    }
}

pub proof fn lemma_limbs_enc_len(s: Seq<u64>)
    ensures
        limbs_enc(s).len() == 8 + 8 * s.len(),
{
    lemma_u64s_bytes_len(s);
}

/// Completeness: a stream that starts with `limbs_enc(s)` parses to `s`.
pub proof fn lemma_parse_limbs_complete(s: Seq<u64>, b: Seq<u8>)
    requires
        s.len() < 0x1_0000_0000_0000_0000,
        b.len() >= limbs_enc(s).len(),
        b.take(limbs_enc(s).len() as int) == limbs_enc(s),
    ensures
        parse_limbs(b) == Some((s, limbs_enc(s).len() as int)),
{
    lemma_u64s_bytes_len(s);
    let e = limbs_enc(s);
    assert(b.take(8) =~= e.take(8));
    assert(e.take(8) =~= u64_le(s.len() as u64));
    lemma_u64_le_from(s.len() as u64);
    let n = s.len() as u64;
    assert(parse_u64(b) == Some((n, 8int)));
    assert(8 + 8 * (n as int) <= b.len());
    let parsed = Seq::new(n as nat, |i: int| u64_from_le(b.subrange(8 + 8 * i, 8 + 8 * i + 8)));
    assert forall|i: int| 0 <= i < s.len() implies parsed[i] == s[i] by {
        lemma_u64s_bytes_index(s, i);
        assert forall|k: int| 0 <= k < 8 implies #[trigger] (b.subrange(8 + 8 * i, 8 + 8 * i
            + 8)[k]) == u64s_bytes(s).subrange(8 * i, 8 * i + 8)[k] by {
            assert(b.take(e.len() as int)[8 + 8 * i + k] == e[8 + 8 * i + k]);
            assert(e[8 + 8 * i + k] == u64s_bytes(s)[8 * i + k]);
        }
        assert(b.subrange(8 + 8 * i, 8 + 8 * i + 8) =~= u64s_bytes(s).subrange(8 * i, 8 * i + 8));
        lemma_u64_le_from(s[i]);
    }
    assert(parsed =~= s);
}

/// Soundness: whatever parses was an exact encoding of the result.
pub proof fn lemma_parse_limbs_sound(b: Seq<u8>)
    ensures
        parse_limbs(b) matches Some((s, n)) ==> {
            &&& 0 <= n <= b.len()
            &&& n == limbs_enc(s).len()
            &&& s.len() < 0x1_0000_0000_0000_0000
            &&& b.take(n) == limbs_enc(s)
        },
{
    if let Some((s, n)) = parse_limbs(b) {
        lemma_u64s_bytes_len(s);
        let cnt = parse_u64(b)->Some_0.0;
        assert(s.len() == cnt as int);
        lemma_u64_from_le_le(b.take(8));
        assert(u64_le(cnt) == b.take(8));
        let body = b.take(n).subrange(8, n);
        assert forall|i: int| 0 <= i < s.len() implies body.subrange(8 * i, 8 * i + 8) == u64_le(
            s[i],
        ) by {
            assert(body.subrange(8 * i, 8 * i + 8) =~= b.subrange(8 + 8 * i, 8 + 8 * i + 8));
            lemma_u64_from_le_le(b.subrange(8 + 8 * i, 8 + 8 * i + 8));
        }
        lemma_u64s_bytes_eq(s, body);
        assert(b.take(n) =~= u64_le(cnt) + body);
    }
}

/// Append `limbs_enc(v@)` to `out`.
pub fn write_u64s(out: &mut Vec<u8>, v: &Vec<u64>)
    ensures
        final(out)@ == old(out)@ + limbs_enc(v@),
{
    write_u64(out, v.len() as u64);
    let ghost base = out@;
    let mut i: usize = 0;
    while i < v.len()
        invariant
            i <= v.len(),
            base == old(out)@ + u64_le(v@.len() as u64),
            out@ == base + u64s_bytes(v@.take(i as int)),
        decreases v.len() - i,
    {
        let ghost prev = v@.take(i as int);
        write_u64(out, v[i]);
        proof {
            assert(v@.take(i + 1int).drop_last() =~= prev);
            assert(v@.take(i + 1int).last() == v@[i as int]);
            assert(u64s_bytes(v@.take(i + 1int)) == u64s_bytes(prev) + u64_le(v@[i as int]));
        }
        i += 1;
    }
    proof {
        assert(v@.take(v@.len() as int) =~= v@);
    }
}

/// Read a length-prefixed limb sequence at `pos`, refusing to allocate when
/// the declared size exceeds the remaining input or the byte `limit`
/// (0 meaning unlimited).
pub fn read_u64s(b: &[u8], pos: usize, limit: u64) -> (r: Result<(Vec<u64>, usize), ()>)
    requires
        pos <= b@.len(),
    ensures
        match parse_limbs(b@.skip(pos as int)) {
            Some((s, n)) => if limit == 0 || n <= limit as int {
                r matches Ok(p) && p.0@ == s && p.1 == pos + n
            } else {
                r is Err
            },
            None => r is Err,
        },
{
    let ghost tail = b@.skip(pos as int);
    if b.len() - pos < 8 {
        return Err(());
    }
    let n = read_u64(b, pos);
    proof {
        assert(tail.take(8) =~= b@.subrange(pos as int, pos as int + 8));
    }
    let avail: usize = b.len() - pos - 8;
    let avail_limbs: usize = avail / 8;
    proof {
        assert(8 * (avail / 8) <= avail && (avail / 8) * 8 + 8 > avail) by (nonlinear_arith);
    }
    if n > avail_limbs as u64 {
        proof {
            assert(8 + 8 * (n as int) > tail.len()) by (nonlinear_arith)
                requires
                    n as int > avail / 8,
                    8 * (avail / 8) + 8 > avail,
                    tail.len() == avail + 8,
            ;
        }
        return Err(());
    }
    let count: usize = n as usize;
    proof {
        assert(8 * (n as int) <= 8 * (avail / 8)) by (nonlinear_arith)
            requires
                n as int <= avail / 8,
        ;
        assert(8 + 8 * (n as int) <= tail.len());
    }
    if limit != 0 {
        if limit < 8 || n > (limit - 8) / 8 {
            proof {
                assert(8 + 8 * (n as int) > limit) by (nonlinear_arith)
                    requires
                        limit > 0,
                        limit < 8 || n as int > ((limit - 8) / 8 as int),
                ;
            }
            return Err(());
        }
        proof {
            assert(8 + 8 * (n as int) <= limit) by (nonlinear_arith)
                requires
                    limit >= 8,
                    n as int <= (limit - 8) / 8 as int,
            ;
        }
    }
    let mut out: Vec<u64> = Vec::new();
    let mut i: usize = 0;
    let ghost target = parse_limbs(tail)->Some_0.0;
    proof {
        assert(b@.len() == vstd::slice::spec_slice_len(b));
        assert(tail.len() == b@.len() - pos);
        assert(parse_limbs(tail) is Some);
        assert(target.len() == n as int);
    }
    while i < count
        invariant
            i <= count,
            count == target.len(),
            b@.len() <= usize::MAX,
            pos + 8 + 8 * count <= b@.len(),
            tail == b@.skip(pos as int),
            target == parse_limbs(tail)->Some_0.0,
            parse_limbs(tail) is Some,
            out@ == target.take(i as int),
        decreases count - i,
    {
        let limb = read_u64(b, pos + 8 + 8 * i);
        proof {
            assert(b@.subrange(pos + 8 + 8 * i, pos + 8 + 8 * i + 8) =~= tail.subrange(8 + 8 * (
            i as int), 8 + 8 * (i as int) + 8));
            assert(target[i as int] == limb);
            assert(target.take(i + 1int) =~= target.take(i as int).push(limb));
        }
        out.push(limb);
        i += 1;
    }
    proof {
        assert(target.take(count as int) =~= target);
    }
    Ok((out, pos + 8 + 8 * count))
}

/// Length-prefixed encoding of a byte string: the count, then the bytes.
pub open spec fn bytes_enc(s: Seq<u8>) -> Seq<u8>
    recommends
        s.len() < 0x1_0000_0000_0000_0000,
{
    u64_le(s.len() as u64) + s
}

/// Parse a length-prefixed byte string from the front of `b`.
pub open spec fn parse_bytes(b: Seq<u8>) -> Option<(Seq<u8>, int)> {
    match parse_u64(b) {
        None => None,
        Some((n, _)) => {
            if 8 + (n as int) <= b.len() {
                Some((b.subrange(8, 8 + (n as int)), 8 + (n as int)))
            } else {
                None
            }
        },
    }
}

pub proof fn lemma_parse_bytes_complete(s: Seq<u8>, b: Seq<u8>)
    requires
        s.len() < 0x1_0000_0000_0000_0000,
        b.len() >= bytes_enc(s).len(),
        b.take(bytes_enc(s).len() as int) == bytes_enc(s),
    ensures
        parse_bytes(b) == Some((s, bytes_enc(s).len() as int)),
{
    let e = bytes_enc(s);
    assert(b.take(8) =~= e.take(8));
    assert(e.take(8) =~= u64_le(s.len() as u64));
    lemma_u64_le_from(s.len() as u64);
    assert(parse_u64(b) == Some((s.len() as u64, 8int)));
    assert forall|i: int| 0 <= i < s.len() implies b.subrange(8, 8 + s.len() as int)[i] == s[i] by {
        assert(b.take(e.len() as int)[8 + i] == e[8 + i]);
    }
    assert(b.subrange(8, 8 + s.len() as int) =~= s);
}

pub proof fn lemma_parse_bytes_sound(b: Seq<u8>)
    ensures
        parse_bytes(b) matches Some((s, n)) ==> {
            &&& 0 <= n <= b.len()
            &&& n == bytes_enc(s).len()
            &&& s.len() < 0x1_0000_0000_0000_0000
            &&& b.take(n) == bytes_enc(s)
        },
{
    if let Some((s, n)) = parse_bytes(b) {
        lemma_u64_from_le_le(b.take(8));
        let cnt = parse_u64(b)->Some_0.0;
        assert(u64_le(cnt) == b.take(8));
        assert(b.take(n) =~= u64_le(cnt) + s);
    }
}

/// Append `bytes_enc(v@)` to `out`.
pub fn write_bytes(out: &mut Vec<u8>, v: &Vec<u8>)
    ensures
        final(out)@ == old(out)@ + bytes_enc(v@),
{
    write_u64(out, v.len() as u64);
    let ghost base = out@;
    let mut i: usize = 0;
    while i < v.len()
        invariant
            i <= v.len(),
            base == old(out)@ + u64_le(v@.len() as u64),
            out@ == base + v@.take(i as int),
        decreases v.len() - i,
    {
        out.push(v[i]);
        proof {
            assert(v@.take(i + 1int) =~= v@.take(i as int).push(v@[i as int]));
        }
        i += 1;
    }
    proof {
        assert(v@.take(v@.len() as int) =~= v@);
    }
}

/// Read a length-prefixed byte string at `pos`, under `limit` (0 unlimited).
pub fn read_bytes(b: &[u8], pos: usize, limit: u64) -> (r: Result<(Vec<u8>, usize), ()>)
    requires
        pos <= b@.len(),
    ensures
        match parse_bytes(b@.skip(pos as int)) {
            Some((s, n)) => if limit == 0 || n <= limit as int {
                r matches Ok(p) && p.0@ == s && p.1 == pos + n
            } else {
                r is Err
            },
            None => r is Err,
        },
{
    let ghost tail = b@.skip(pos as int);
    if b.len() - pos < 8 {
        return Err(());
    }
    let n = read_u64(b, pos);
    proof {
        assert(tail.take(8) =~= b@.subrange(pos as int, pos as int + 8));
    }
    let avail: usize = b.len() - pos - 8;
    if n > avail as u64 {
        return Err(());
    }
    let count: usize = n as usize;
    if limit != 0 && (limit < 8 || n > limit - 8) {
        return Err(());
    }
    let mut out: Vec<u8> = Vec::new();
    let mut i: usize = 0;
    let ghost target = parse_bytes(tail)->Some_0.0;
    proof {
        assert(b@.len() == vstd::slice::spec_slice_len(b));
        assert(tail.len() == b@.len() - pos);
        assert(parse_bytes(tail) == Some((tail.subrange(8, 8 + n as int), 8 + n as int)));
    }
    while i < count
        invariant
            i <= count,
            count == target.len(),
            b@.len() <= usize::MAX,
            pos + 8 + count <= b@.len(),
            tail == b@.skip(pos as int),
            target == parse_bytes(tail)->Some_0.0,
            parse_bytes(tail) is Some,
            out@ == target.take(i as int),
        decreases count - i,
    {
        let byte = b[pos + 8 + i];
        proof {
            assert(tail[8 + i as int] == b@[pos + 8 + i as int]);
            assert(target[i as int] == tail[8 + i as int]);
            assert(target.take(i + 1int) =~= target.take(i as int).push(byte));
        }
        out.push(byte);
        i += 1;
    }
    proof {
        assert(target.take(count as int) =~= target);
    }
    Ok((out, pos + 8 + count))
}

/// Whether two byte vectors hold the same bytes.
pub fn bytes_eq(a: &Vec<u8>, b: &Vec<u8>) -> (r: bool)
    ensures
        r == (a@ == b@),
{
    if a.len() != b.len() {
        return false;
    }
    let mut i: usize = 0;
    while i < a.len()
        invariant
            i <= a@.len(),
            a@.len() == b@.len(),
            forall|j: int| 0 <= j < i ==> a@[j] == b@[j],
        decreases a@.len() - i,
    {
        if a[i] != b[i] {
            return false;
        }
        i += 1;
    }
    proof {
        assert(a@ =~= b@);
    }
    true
}

/// Append one raw byte.
pub fn write_u8(out: &mut Vec<u8>, v: u8)
    ensures
        final(out)@ == old(out)@ + seq![v],
{
    out.push(v);
    proof {
        assert(out@ =~= old(out)@ + seq![v]);
    }
}

} // verus!
