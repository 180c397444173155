//! The LWE keyswitch key and its versioned shapes. Between the first
//! persisted shape and the current one the meaning of the stored
//! decomposition levels changed order, so the upgrade step reorders the
//! underlying data: within every ciphertext block, the level sub-blocks
//! are reversed.
use vstd::prelude::*;

use crate::codec::{ascii_bytes, BinaryCodec, Named, str_to_bytes};
use crate::conformance::ParameterSetConformant;
use crate::versioning::Versionize;
use crate::wire::{
    lemma_limbs_enc_len, lemma_parse_limbs_complete, lemma_parse_limbs_sound, lemma_u128_from_le_le,
    lemma_u128_le_from, lemma_u64_from_le_le, lemma_u64_le_from, limbs_enc, parse_limbs, parse_u128,
    parse_u64, read_u128, read_u64, read_u64s, u128_le, u64_le, write_u128, write_u64, write_u64s,
    write_u8,
};

verus! {

/// An LWE keyswitch key: a flat container of `u64` coefficients, holding
/// one block of `decomp_level_count` ciphertexts of `output_lwe_size`
/// elements per input key bit.
#[derive(Debug, Clone, PartialEq, Eq)]
pub struct LweKeyswitchKey {
    pub data: Vec<u64>,
    pub decomp_base_log: usize,
    pub decomp_level_count: usize,
    pub output_lwe_size: usize,
    pub ciphertext_modulus: u128,
}

/// Abstract value of an [`LweKeyswitchKey`] (and of its historical shape,
/// which carries the same fields).
pub struct LweKeyswitchKeyView {
    pub data: Seq<u64>,
    pub decomp_base_log: int,
    pub decomp_level_count: int,
    pub output_lwe_size: int,
    pub ciphertext_modulus: u128,
}

impl View for LweKeyswitchKey {
    type V = LweKeyswitchKeyView;

    open spec fn view(&self) -> LweKeyswitchKeyView {
        LweKeyswitchKeyView {
            data: self.data@,
            decomp_base_log: self.decomp_base_log as int,
            decomp_level_count: self.decomp_level_count as int,
            output_lwe_size: self.output_lwe_size as int,
            ciphertext_modulus: self.ciphertext_modulus,
        }
    }
}

/// Well-formedness of a keyswitch key: at least one level and a nonempty
/// output size, the block size representable, and the container an exact
/// number of blocks.
pub open spec fn ksk_wf(k: LweKeyswitchKeyView) -> bool {
    &&& k.decomp_level_count >= 1
    &&& k.output_lwe_size >= 1
    &&& k.decomp_level_count * k.output_lwe_size <= usize::MAX
    &&& k.data.len() as int % (k.decomp_level_count * k.output_lwe_size) == 0
}

/// The container with the order of the decomposition levels reversed
/// inside every block of `dlc * out` elements: element `off` of level
/// `lvl` of a block comes from level `dlc - 1 - lvl` of the same block.
pub open spec fn reversed_levels(data: Seq<u64>, dlc: int, out: int) -> Seq<u64>
    recommends
        dlc >= 1,
        out >= 1,
        data.len() as int % (dlc * out) == 0,
{
    Seq::new(
        data.len(),
        |i: int|
            {
                let chunk = dlc * out;
                let c = i / chunk;
                let r = i % chunk;
                let lvl = r / out;
                let off = r % out;
                data[c * chunk + (dlc - 1 - lvl) * out + off]
            },
    )
}

/// What upgrading the first persisted shape yields: the same key with the
/// decomposition levels of every block reversed.
pub open spec fn spec_upgrade_ksk(k: LweKeyswitchKeyView) -> LweKeyswitchKeyView {
    LweKeyswitchKeyView {
        data: reversed_levels(k.data, k.decomp_level_count, k.output_lwe_size),
        ..k
    }
}

impl LweKeyswitchKey {
    /// Assembles a key from its container and parameters.
    pub fn from_container(
        data: Vec<u64>,
        decomp_base_log: usize,
        decomp_level_count: usize,
        output_lwe_size: usize,
        ciphertext_modulus: u128,
    ) -> (r: LweKeyswitchKey)
        requires
            decomp_level_count >= 1,
            output_lwe_size >= 1,
            decomp_level_count * output_lwe_size <= usize::MAX,
            data@.len() as int % (decomp_level_count * output_lwe_size) as int == 0,
        ensures
            r@ == (LweKeyswitchKeyView {
                data: data@,
                decomp_base_log: decomp_base_log as int,
                decomp_level_count: decomp_level_count as int,
                output_lwe_size: output_lwe_size as int,
                ciphertext_modulus,
            }),
            ksk_wf(r@),
    {
        LweKeyswitchKey { data, decomp_base_log, decomp_level_count, output_lwe_size, ciphertext_modulus }
    }

    /// Whether the container and parameters form a well-formed key.
    pub fn is_well_formed(&self) -> (r: bool)
        ensures
            r == ksk_wf(self@),
    {
        match checked_block_len(self.decomp_level_count, self.output_lwe_size) {
            Some(chunk) => self.data.len() % chunk == 0,
            None => false,
        }
    }
}

/// The byte count of one ciphertext block, when the parameters are sane
/// and the product fits the machine.
fn checked_block_len(decomp_level_count: usize, output_lwe_size: usize) -> (r: Option<usize>)
    ensures
        match r {
            Some(chunk) => {
                &&& decomp_level_count >= 1
                &&& output_lwe_size >= 1
                &&& chunk >= 1
                &&& chunk == decomp_level_count * output_lwe_size
            },
            None => !(decomp_level_count >= 1 && output_lwe_size >= 1 && decomp_level_count
                * output_lwe_size <= usize::MAX),
        },
{
    if decomp_level_count < 1 || output_lwe_size < 1 {
        return None;
    }
    let bound: usize = usize::MAX / output_lwe_size;
    proof {
        assert((usize::MAX as int / output_lwe_size as int) * output_lwe_size as int
            <= usize::MAX as int) by (nonlinear_arith)
            requires
                output_lwe_size as int >= 1,
        ;
        assert(decomp_level_count as int <= usize::MAX as int / output_lwe_size as int
            ==> decomp_level_count as int * output_lwe_size as int <= usize::MAX as int)
            by (nonlinear_arith)
            requires
                output_lwe_size as int >= 1,
                (usize::MAX as int / output_lwe_size as int) * output_lwe_size as int
                    <= usize::MAX as int,
        ;
        assert(decomp_level_count as int > usize::MAX as int / output_lwe_size as int
            ==> decomp_level_count as int * output_lwe_size as int > usize::MAX as int)
            by (nonlinear_arith)
            requires
                output_lwe_size as int >= 1,
                usize::MAX as int / output_lwe_size as int >= 0,
        ;
    }
    if decomp_level_count > bound {
        return None;
    }
    proof {
        assert(decomp_level_count as int * output_lwe_size as int >= 1) by (nonlinear_arith)
            requires
                decomp_level_count as int >= 1,
                output_lwe_size as int >= 1,
        ;
    }
    Some(decomp_level_count * output_lwe_size)
}

/// The first persisted shape of [`LweKeyswitchKey`]: same fields, but the
/// decomposition levels of every block stored in the reverse order.
#[derive(Debug, Clone, PartialEq, Eq)]
pub struct LweKeyswitchKeyV0 {
    pub data: Vec<u64>,
    pub decomp_base_log: usize,
    pub decomp_level_count: usize,
    pub output_lwe_size: usize,
    pub ciphertext_modulus: u128,
}

impl View for LweKeyswitchKeyV0 {
    type V = LweKeyswitchKeyView;

    open spec fn view(&self) -> LweKeyswitchKeyView {
        LweKeyswitchKeyView {
            data: self.data@,
            decomp_base_log: self.decomp_base_log as int,
            decomp_level_count: self.decomp_level_count as int,
            output_lwe_size: self.output_lwe_size as int,
            ciphertext_modulus: self.ciphertext_modulus,
        }
    }
}

impl LweKeyswitchKeyV0 {
    /// Upgrades the historical shape to the current one, reversing the
    /// order of the decomposition levels inside every block.
    pub fn upgrade(self) -> (r: LweKeyswitchKey)
        requires
            ksk_wf(self@),
        ensures
            r@ == spec_upgrade_ksk(self@),
    {
        let ghost view0 = self@;
        let LweKeyswitchKeyV0 {
            data,
            decomp_base_log,
            decomp_level_count,
            output_lwe_size,
            ciphertext_modulus,
        } = self;
        let chunk: usize = decomp_level_count * output_lwe_size;
        proof {
            assert(decomp_level_count as int * output_lwe_size as int >= 1) by (nonlinear_arith)
                requires
                    decomp_level_count as int >= 1,
                    output_lwe_size as int >= 1,
            ;
        }
        let len: usize = data.len();
        let ghost target = reversed_levels(data@, decomp_level_count as int, output_lwe_size as int);
        let mut new_data: Vec<u64> = Vec::new();
        let mut k: usize = 0;
        while k < len
            invariant
                k <= len,
                len == data@.len(),
                chunk >= 1,
                chunk == decomp_level_count * output_lwe_size,
                decomp_level_count >= 1,
                output_lwe_size >= 1,
                len % chunk == 0,
                target == reversed_levels(
                    data@,
                    decomp_level_count as int,
                    output_lwe_size as int,
                ),
                new_data@ == target.take(k as int),
            decreases len - k,
        {
            let c: usize = k / chunk;
            let r: usize = k % chunk;
            let lvl: usize = r / output_lwe_size;
            let off: usize = r % output_lwe_size;
            proof {
                let ki = k as int;
                let chunki = chunk as int;
                let outi = output_lwe_size as int;
                let dlci = decomp_level_count as int;
                vstd::arithmetic::div_mod::lemma_fundamental_div_mod(ki, chunki);
                vstd::arithmetic::div_mod::lemma_mod_bound(ki, chunki);
                vstd::arithmetic::div_mod::lemma_fundamental_div_mod(ki % chunki, outi);
                vstd::arithmetic::div_mod::lemma_mod_bound(ki % chunki, outi);
                assert(lvl < dlci) by (nonlinear_arith)
                    requires
                        outi >= 1,
                        dlci >= 1,
                        chunki == dlci * outi,
                        (ki % chunki) < chunki,
                        ki % chunki == outi * (lvl as int) + (off as int),
                        0 <= (off as int) < outi,
                        lvl == (ki % chunki) / outi,
                ;
                assert((c as int) * chunki + chunki <= len as int) by (nonlinear_arith)
                    requires
                        chunki >= 1,
                        ki < len,
                        len as int % chunki == 0,
                        ki == chunki * (c as int) + (ki % chunki),
                        0 <= ki % chunki < chunki,
                ;
                assert((dlci - 1 - lvl) * outi + off < chunki) by (nonlinear_arith)
                    requires
                        outi >= 1,
                        dlci >= 1,
                        0 <= (lvl as int) < dlci,
                        0 <= (off as int) < outi,
                        chunki == dlci * outi,
                ;
                assert(chunki * (c as int) == (c as int) * chunki) by (nonlinear_arith);
            }
            let src: usize = c * chunk + (decomp_level_count - 1 - lvl) * output_lwe_size + off;
            let elem = data[src];
            proof {
                assert(target[k as int] == elem);
                assert(target.take(k as int + 1) =~= target.take(k as int).push(elem));
            }
            new_data.push(elem);
            k += 1;
        }
        proof {
            assert(target.take(len as int) =~= target);
        }
        LweKeyswitchKey {
            data: new_data,
            decomp_base_log,
            decomp_level_count,
            output_lwe_size,
            ciphertext_modulus,
        }
    }
}

/// Dispatch enum over every persisted shape of the keyswitch key.
#[derive(Debug, Clone, PartialEq, Eq)]
pub enum LweKeyswitchKeyVersions {
    V0(LweKeyswitchKeyV0),
    V1(LweKeyswitchKey),
}

/// Abstract value of [`LweKeyswitchKeyVersions`].
pub enum LweKeyswitchKeyVersionsView {
    V0(LweKeyswitchKeyView),
    V1(LweKeyswitchKeyView),
}

impl View for LweKeyswitchKeyVersions {
    type V = LweKeyswitchKeyVersionsView;

    open spec fn view(&self) -> LweKeyswitchKeyVersionsView {
        match self {
            LweKeyswitchKeyVersions::V0(k) => LweKeyswitchKeyVersionsView::V0(k@),
            LweKeyswitchKeyVersions::V1(k) => LweKeyswitchKeyVersionsView::V1(k@),
        }
    }
}

impl Versionize for LweKeyswitchKey {
    type Versioned = LweKeyswitchKeyVersions;

    open spec fn spec_versionize(v: LweKeyswitchKeyView) -> LweKeyswitchKeyVersionsView {
        LweKeyswitchKeyVersionsView::V1(v)
    }

    open spec fn spec_unversionize(w: LweKeyswitchKeyVersionsView) -> Option<LweKeyswitchKeyView> {
        match w {
            LweKeyswitchKeyVersionsView::V0(k) => if ksk_wf(k) {
                Some(spec_upgrade_ksk(k))
            } else {
                None
            },
            LweKeyswitchKeyVersionsView::V1(k) => Some(k),
        }
    }

    fn versionize(self) -> (r: LweKeyswitchKeyVersions) {
        LweKeyswitchKeyVersions::V1(self)
    }

    fn unversionize(w: LweKeyswitchKeyVersions) -> (r: Result<Self, String>) {
        match w {
            LweKeyswitchKeyVersions::V0(k0) => {
                if k0.is_well_formed_v0() {
                    Ok(k0.upgrade())
                } else {
                    Err("invalid LweKeyswitchKey container".to_owned())
                }
            },
            LweKeyswitchKeyVersions::V1(k) => Ok(k),
        }
    }

    proof fn versionize_unversionize(v: LweKeyswitchKeyView) {
    }
}

impl LweKeyswitchKeyV0 {
    /// Whether the historical container and parameters form a well-formed
    /// key.
    pub fn is_well_formed_v0(&self) -> (r: bool)
        ensures
            r == ksk_wf(self@),
    {
        match checked_block_len(self.decomp_level_count, self.output_lwe_size) {
            Some(chunk) => self.data.len() % chunk == 0,
            None => false,
        }
    }
}

/// Upgrade meaning: a legally produced historical value always folds into
/// the current shape, with the levels of every block reversed.
pub proof fn lemma_historical_ksk_upgrade(k: LweKeyswitchKeyView)
    requires
        ksk_wf(k),
    ensures
        LweKeyswitchKey::spec_unversionize(LweKeyswitchKeyVersionsView::V0(k)) == Some(
            spec_upgrade_ksk(k),
        ),
{
}

/// Whether an abstract keyswitch key can be encoded faithfully: every
/// size parameter fits the machine and the container fits its length
/// prefix. Every exec value satisfies this.
pub open spec fn ksk_valid(k: LweKeyswitchKeyView) -> bool {
    &&& 0 <= k.decomp_base_log <= usize::MAX
    &&& 0 <= k.decomp_level_count <= usize::MAX
    &&& 0 <= k.output_lwe_size <= usize::MAX
    &&& k.data.len() < 0x1_0000_0000_0000_0000
}

/// The bytes of a keyswitch key: the three size parameters, the
/// ciphertext modulus, then the length-prefixed container.
pub open spec fn ksk_enc(k: LweKeyswitchKeyView) -> Seq<u8> {
    u64_le(k.decomp_base_log as u64) + u64_le(k.decomp_level_count as u64) + u64_le(
        k.output_lwe_size as u64,
    ) + u128_le(k.ciphertext_modulus) + limbs_enc(k.data)
}

/// The unique prefix parse of a keyswitch key: the fixed fields, a check
/// that the sizes fit the machine, then the container.
pub open spec fn parse_ksk(b: Seq<u8>) -> Option<(LweKeyswitchKeyView, int)> {
    match parse_u64(b) {
        None => None,
        Some((bl, _)) => match parse_u64(b.skip(8)) {
            None => None,
            Some((dlc, _)) => match parse_u64(b.skip(16)) {
                None => None,
                Some((out, _)) => match parse_u128(b.skip(24)) {
                    None => None,
                    Some((cm, _)) => if bl > usize::MAX as u64 || dlc > usize::MAX as u64 || out
                        > usize::MAX as u64 {
                        None
                    } else {
                        match parse_limbs(b.skip(40)) {
                            None => None,
                            Some((data, n)) => Some(
                                (
                                    LweKeyswitchKeyView {
                                        data,
                                        decomp_base_log: bl as int,
                                        decomp_level_count: dlc as int,
                                        output_lwe_size: out as int,
                                        ciphertext_modulus: cm,
                                    },
                                    40 + n,
                                ),
                            ),
                        }
                    },
                },
            },
        },
    }
}

impl Named for LweKeyswitchKey {
    open spec fn spec_name() -> Seq<u8> {
        ascii_bytes("LweKeyswitchKey"@)
    }

    proof fn lemma_name_len() {
        reveal_strlit("LweKeyswitchKey");
    }

    fn name_bytes() -> (r: Vec<u8>) {
        proof {
            reveal_strlit("LweKeyswitchKey");
        }
        str_to_bytes("LweKeyswitchKey")
    }
}

impl BinaryCodec for LweKeyswitchKey {
    open spec fn spec_valid(v: LweKeyswitchKeyView) -> bool {
        ksk_valid(v)
    }

    open spec fn spec_encoding(v: LweKeyswitchKeyView) -> Seq<u8> {
        ksk_enc(v)
    }

    open spec fn spec_parse(b: Seq<u8>) -> Option<(LweKeyswitchKeyView, int)> {
        parse_ksk(b)
    }

    proof fn lemma_valid(&self) {
        vstd::std_specs::vec::axiom_spec_len(&self.data);
    }

    proof fn lemma_parse_sound(b: Seq<u8>) {
        if let Some((v, n)) = parse_ksk(b) {
            lemma_parse_limbs_sound(b.skip(40));
            let e = ksk_enc(v);
            lemma_limbs_enc_len(v.data);
            lemma_u64_from_le_le(b.take(8));
            lemma_u64_from_le_le(b.skip(8).take(8));
            lemma_u64_from_le_le(b.skip(16).take(8));
            lemma_u128_from_le_le(b.skip(24).take(16));
            assert(b.skip(24).take(16).take(8) =~= b.skip(24).take(8));
            assert(b.skip(24).take(16).subrange(8, 16) =~= b.skip(24).subrange(8, 16));
            assert(b.take(n) =~= b.take(8) + b.skip(8).take(8) + b.skip(16).take(8) + b.skip(
                24,
            ).take(16) + b.skip(40).take(n - 40));
        }
    }

    proof fn lemma_parse_complete(v: LweKeyswitchKeyView, b: Seq<u8>) {
        let e = ksk_enc(v);
        lemma_limbs_enc_len(v.data);
        lemma_u64_le_from(v.decomp_base_log as u64);
        lemma_u64_le_from(v.decomp_level_count as u64);
        lemma_u64_le_from(v.output_lwe_size as u64);
        lemma_u128_le_from(v.ciphertext_modulus);
        assert forall|i: int| 0 <= i < e.len() implies b[i] == e[i] by {
            assert(b.take(e.len() as int)[i] == e[i]);
        }
        assert(b.take(8) =~= u64_le(v.decomp_base_log as u64));
        assert(b.skip(8).take(8) =~= u64_le(v.decomp_level_count as u64));
        assert(b.skip(16).take(8) =~= u64_le(v.output_lwe_size as u64));
        assert(b.skip(24).take(16) =~= u128_le(v.ciphertext_modulus));
        assert(b.skip(24).take(16).take(8) =~= b.skip(24).take(8));
        assert(b.skip(24).take(16).subrange(8, 16) =~= b.skip(24).subrange(8, 16));
        assert(b.skip(40).take(limbs_enc(v.data).len() as int) =~= limbs_enc(v.data)) by {
            assert forall|i: int| 0 <= i < limbs_enc(v.data).len() implies b.skip(40)[i] == e[40
                + i] by {
                assert(b.take(e.len() as int)[40 + i] == e[40 + i]);
            }
        }
        lemma_parse_limbs_complete(v.data, b.skip(40));
    }

    fn encode(&self, out: &mut Vec<u8>) {
        write_u64(out, self.decomp_base_log as u64);
        write_u64(out, self.decomp_level_count as u64);
        write_u64(out, self.output_lwe_size as u64);
        write_u128(out, self.ciphertext_modulus);
        write_u64s(out, &self.data);
        proof {
            assert(final(out)@ =~= old(out)@ + Self::spec_encoding(self@));
        }
    }

    fn decode(b: &[u8], pos: usize, limit: u64) -> (r: Result<(Self, usize), ()>) {
        let ghost tail = b@.skip(pos as int);
        proof {
            assert(b@.len() == vstd::slice::spec_slice_len(b));
        }
        if b.len() - pos < 40 {
            return Err(());
        }
        let bl = read_u64(b, pos);
        let dlc = read_u64(b, pos + 8);
        let out_size = read_u64(b, pos + 16);
        let cm = read_u128(b, pos + 24);
        proof {
            assert(tail.take(8) =~= b@.subrange(pos as int, pos as int + 8));
            assert(tail.skip(8).take(8) =~= b@.subrange(pos as int + 8, pos as int + 16));
            assert(tail.skip(16).take(8) =~= b@.subrange(pos as int + 16, pos as int + 24));
            assert(tail.skip(24) =~= b@.skip(pos as int + 24));
            assert(tail.skip(40) =~= b@.skip(pos as int + 40));
        }
        if bl > usize::MAX as u64 || dlc > usize::MAX as u64 || out_size > usize::MAX as u64 {
            return Err(());
        }
        proof {
            if let Some((data0, n0)) = parse_limbs(tail.skip(40)) {
                lemma_limbs_enc_len(data0);
                lemma_parse_limbs_sound(tail.skip(40));
            }
        }
        if limit != 0 && limit < 48 {
            return Err(());
        }
        let inner_limit: u64 = if limit == 0 {
            0
        } else {
            limit - 40
        };
        match read_u64s(b, pos + 40, inner_limit) {
            Ok((data, end)) => Ok(
                (
                    LweKeyswitchKey {
                        data,
                        decomp_base_log: bl as usize,
                        decomp_level_count: dlc as usize,
                        output_lwe_size: out_size as usize,
                        ciphertext_modulus: cm,
                    },
                    end,
                ),
            ),
            Err(_) => Err(()),
        }
    }
}

/// The parameter set a decoded keyswitch key is checked against: the
/// decomposition and size parameters it must have been built under.
#[derive(Debug, Clone, Copy, PartialEq, Eq, Structural)]
pub struct KeyswitchKeyConformanceParams {
    pub decomp_base_log: usize,
    pub decomp_level_count: usize,
    pub output_lwe_size: usize,
    pub ciphertext_modulus: u128,
}

impl ParameterSetConformant for LweKeyswitchKey {
    type ParameterSet = KeyswitchKeyConformanceParams;

    open spec fn spec_is_conformant(
        v: LweKeyswitchKeyView,
        parameter_set: KeyswitchKeyConformanceParams,
    ) -> bool {
        &&& v.decomp_base_log == parameter_set.decomp_base_log
        &&& v.decomp_level_count == parameter_set.decomp_level_count
        &&& v.output_lwe_size == parameter_set.output_lwe_size
        &&& v.ciphertext_modulus == parameter_set.ciphertext_modulus
        &&& ksk_wf(v)
    }

    fn is_conformant(&self, parameter_set: &KeyswitchKeyConformanceParams) -> (r: bool) {
        self.decomp_base_log == parameter_set.decomp_base_log && self.decomp_level_count
            == parameter_set.decomp_level_count && self.output_lwe_size
            == parameter_set.output_lwe_size && self.ciphertext_modulus
            == parameter_set.ciphertext_modulus && self.is_well_formed()
    }
}

/// The tag of the first persisted shape of the keyswitch key.
pub const KSK_V0_TAG: u8 = 0;

/// The tag of the current shape of the keyswitch key.
pub const KSK_V1_TAG: u8 = 1;

impl BinaryCodec for LweKeyswitchKeyVersions {
    open spec fn spec_valid(v: LweKeyswitchKeyVersionsView) -> bool {
        match v {
            LweKeyswitchKeyVersionsView::V0(k) => ksk_valid(k),
            LweKeyswitchKeyVersionsView::V1(k) => ksk_valid(k),
        }
    }

    open spec fn spec_encoding(v: LweKeyswitchKeyVersionsView) -> Seq<u8> {
        match v {
            LweKeyswitchKeyVersionsView::V0(k) => seq![KSK_V0_TAG] + ksk_enc(k),
            LweKeyswitchKeyVersionsView::V1(k) => seq![KSK_V1_TAG] + ksk_enc(k),
        }
    }

    open spec fn spec_parse(b: Seq<u8>) -> Option<(LweKeyswitchKeyVersionsView, int)> {
        if b.len() >= 1 && (b[0] == KSK_V0_TAG || b[0] == KSK_V1_TAG) {
            match parse_ksk(b.skip(1)) {
                Some((k, n)) => Some(
                    (
                        if b[0] == KSK_V0_TAG {
                            LweKeyswitchKeyVersionsView::V0(k)
                        } else {
                            LweKeyswitchKeyVersionsView::V1(k)
                        },
                        1 + n,
                    ),
                ),
                None => None,
            }
        } else {
            None
        }
    }

    proof fn lemma_valid(&self) {
        match self {
            LweKeyswitchKeyVersions::V0(k) => {
                vstd::std_specs::vec::axiom_spec_len(&k.data);
            },
            LweKeyswitchKeyVersions::V1(k) => {
                vstd::std_specs::vec::axiom_spec_len(&k.data);
            },
        }
    }

    proof fn lemma_parse_sound(b: Seq<u8>) {
        if b.len() >= 1 && (b[0] == KSK_V0_TAG || b[0] == KSK_V1_TAG) {
            LweKeyswitchKey::lemma_parse_sound(b.skip(1));
            if let Some((k, n)) = parse_ksk(b.skip(1)) {
                assert(b.take(1 + n) =~= seq![b[0]] + b.skip(1).take(n));
            }
        }
    }

    proof fn lemma_parse_complete(v: LweKeyswitchKeyVersionsView, b: Seq<u8>) {
        let e = Self::spec_encoding(v);
        let inner = match v {
            LweKeyswitchKeyVersionsView::V0(k) => k,
            LweKeyswitchKeyVersionsView::V1(k) => k,
        };
        assert(b[0] == e[0]) by {
            assert(b.take(e.len() as int)[0] == e[0]);
        }
        assert(b.skip(1).take(ksk_enc(inner).len() as int) =~= ksk_enc(inner)) by {
            assert forall|i: int| 0 <= i < ksk_enc(inner).len() implies b.skip(1)[i] == ksk_enc(
                inner,
            )[i] by {
                assert(b.take(e.len() as int)[1 + i] == e[1 + i]);
            }
        }
        LweKeyswitchKey::lemma_parse_complete(inner, b.skip(1));
    }

    fn encode(&self, out: &mut Vec<u8>) {
        match self {
            LweKeyswitchKeyVersions::V0(k0) => {
                write_u8(out, KSK_V0_TAG);
                write_u64(out, k0.decomp_base_log as u64);
                write_u64(out, k0.decomp_level_count as u64);
                write_u64(out, k0.output_lwe_size as u64);
                write_u128(out, k0.ciphertext_modulus);
                write_u64s(out, &k0.data);
            },
            LweKeyswitchKeyVersions::V1(k) => {
                write_u8(out, KSK_V1_TAG);
                k.encode(out);
            },
        }
        proof {
            assert(final(out)@ =~= old(out)@ + Self::spec_encoding(self@));
        }
    }

    fn decode(b: &[u8], pos: usize, limit: u64) -> (r: Result<(Self, usize), ()>) {
        if pos >= b.len() {
            return Err(());
        }
        let tag = b[pos];
        if tag != KSK_V0_TAG && tag != KSK_V1_TAG {
            return Err(());
        }
        if limit == 1 {
            proof {
                if let Some((k, n)) = parse_ksk(b@.skip(pos as int).skip(1)) {
                    LweKeyswitchKey::lemma_parse_sound(b@.skip(pos as int).skip(1));
                }
            }
            return Err(());
        }
        let inner_limit: u64 = if limit == 0 {
            0
        } else {
            limit - 1
        };
        proof {
            assert(b@.skip(pos as int).skip(1) =~= b@.skip(pos as int + 1));
        }
        match LweKeyswitchKey::decode(b, pos + 1, inner_limit) {
            Ok((k, end)) => if tag == KSK_V0_TAG {
                let LweKeyswitchKey {
                    data,
                    decomp_base_log,
                    decomp_level_count,
                    output_lwe_size,
                    ciphertext_modulus,
                } = k;
                Ok(
                    (
                        LweKeyswitchKeyVersions::V0(
                            LweKeyswitchKeyV0 {
                                data,
                                decomp_base_log,
                                decomp_level_count,
                                output_lwe_size,
                                ciphertext_modulus,
                            },
                        ),
                        end,
                    ),
                )
            } else {
                Ok((LweKeyswitchKeyVersions::V1(k), end))
            },
            Err(_) => Err(()),
        }
    }
}

} // verus!
