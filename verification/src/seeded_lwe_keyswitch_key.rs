//! The seeded LWE keyswitch key and its versioned shapes. The historical
//! shape carries the same fields as the current one; its upgrade step is a
//! plain reassembly that moves every field across unchanged.
use vstd::prelude::*;

use crate::codec::{ascii_bytes, BinaryCodec, Named, str_to_bytes};
use crate::conformance::ParameterSetConformant;
use crate::lwe_keyswitch_key::KeyswitchKeyConformanceParams;
use crate::versioning::Versionize;
use crate::wire::{
    lemma_limbs_enc_len, lemma_parse_limbs_complete, lemma_parse_limbs_sound, lemma_u128_from_le_le,
    lemma_u128_le_from, lemma_u64_from_le_le, lemma_u64_le_from, limbs_enc, parse_limbs, parse_u128,
    parse_u64, read_u128, read_u64, read_u64s, u128_le, u64_le, write_u128, write_u64, write_u64s,
    write_u8,
};

verus! {

/// A seeded LWE keyswitch key: the compressed container plus the seed the
/// remaining mass of the ciphertexts is regenerated from.
#[derive(Debug, Clone, PartialEq, Eq)]
pub struct SeededLweKeyswitchKey {
    pub data: Vec<u64>,
    pub decomp_base_log: usize,
    pub decomp_level_count: usize,
    pub output_lwe_size: usize,
    pub compression_seed: u128,
    pub ciphertext_modulus: u128,
}

/// Abstract value of a [`SeededLweKeyswitchKey`] (and of its historical
/// shape, which carries the same fields).
pub struct SeededLweKeyswitchKeyView {
    pub data: Seq<u64>,
    pub decomp_base_log: int,
    pub decomp_level_count: int,
    pub output_lwe_size: int,
    pub compression_seed: u128,
    pub ciphertext_modulus: u128,
}

impl View for SeededLweKeyswitchKey {
    type V = SeededLweKeyswitchKeyView;

    open spec fn view(&self) -> SeededLweKeyswitchKeyView {
        SeededLweKeyswitchKeyView {
            data: self.data@,
            decomp_base_log: self.decomp_base_log as int,
            decomp_level_count: self.decomp_level_count as int,
            output_lwe_size: self.output_lwe_size as int,
            compression_seed: self.compression_seed,
            ciphertext_modulus: self.ciphertext_modulus,
        }
    }
}

/// The first persisted shape of [`SeededLweKeyswitchKey`].
#[derive(Debug, Clone, PartialEq, Eq)]
pub struct SeededLweKeyswitchKeyV0 {
    pub data: Vec<u64>,
    pub decomp_base_log: usize,
    pub decomp_level_count: usize,
    pub output_lwe_size: usize,
    pub compression_seed: u128,
    pub ciphertext_modulus: u128,
}

impl View for SeededLweKeyswitchKeyV0 {
    type V = SeededLweKeyswitchKeyView;

    open spec fn view(&self) -> SeededLweKeyswitchKeyView {
        SeededLweKeyswitchKeyView {
            data: self.data@,
            decomp_base_log: self.decomp_base_log as int,
            decomp_level_count: self.decomp_level_count as int,
            output_lwe_size: self.output_lwe_size as int,
            compression_seed: self.compression_seed,
            ciphertext_modulus: self.ciphertext_modulus,
        }
    }
}

impl SeededLweKeyswitchKeyV0 {
    /// Upgrades the historical shape to the current one: every field moves
    /// across unchanged.
    pub fn upgrade(self) -> (r: SeededLweKeyswitchKey)
        ensures
            r@ == self@,
    {
        let SeededLweKeyswitchKeyV0 {
            data,
            decomp_base_log,
            decomp_level_count,
            output_lwe_size,
            compression_seed,
            ciphertext_modulus,
        } = self;
        SeededLweKeyswitchKey {
            data,
            decomp_base_log,
            decomp_level_count,
            output_lwe_size,
            compression_seed,
            ciphertext_modulus,
        }
    }
}

/// Dispatch enum over every persisted shape of the seeded keyswitch key.
#[derive(Debug, Clone, PartialEq, Eq)]
pub enum SeededLweKeyswitchKeyVersions {
    V0(SeededLweKeyswitchKeyV0),
    V1(SeededLweKeyswitchKey),
}

/// Abstract value of [`SeededLweKeyswitchKeyVersions`].
pub enum SeededLweKeyswitchKeyVersionsView {
    V0(SeededLweKeyswitchKeyView),
    V1(SeededLweKeyswitchKeyView),
}

impl View for SeededLweKeyswitchKeyVersions {
    type V = SeededLweKeyswitchKeyVersionsView;

    open spec fn view(&self) -> SeededLweKeyswitchKeyVersionsView {
        match self {
            SeededLweKeyswitchKeyVersions::V0(k) => SeededLweKeyswitchKeyVersionsView::V0(k@),
            SeededLweKeyswitchKeyVersions::V1(k) => SeededLweKeyswitchKeyVersionsView::V1(k@),
        }
    }
}

impl Versionize for SeededLweKeyswitchKey {
    type Versioned = SeededLweKeyswitchKeyVersions;

    open spec fn spec_versionize(v: SeededLweKeyswitchKeyView) -> SeededLweKeyswitchKeyVersionsView {
        SeededLweKeyswitchKeyVersionsView::V1(v)
    }

    open spec fn spec_unversionize(w: SeededLweKeyswitchKeyVersionsView) -> Option<
        SeededLweKeyswitchKeyView,
    > {
        match w {
            SeededLweKeyswitchKeyVersionsView::V0(k) => Some(k),
            SeededLweKeyswitchKeyVersionsView::V1(k) => Some(k),
        }
    }

    fn versionize(self) -> (r: SeededLweKeyswitchKeyVersions) {
        SeededLweKeyswitchKeyVersions::V1(self)
    }

    fn unversionize(w: SeededLweKeyswitchKeyVersions) -> (r: Result<Self, String>) {
        match w {
            SeededLweKeyswitchKeyVersions::V0(k0) => Ok(k0.upgrade()),
            SeededLweKeyswitchKeyVersions::V1(k) => Ok(k),
        }
    }

    proof fn versionize_unversionize(v: SeededLweKeyswitchKeyView) {
    }
}

/// Upgrade meaning: a historical value always folds into the current
/// shape with every field kept.
pub proof fn lemma_historical_seeded_ksk_upgrade(k: SeededLweKeyswitchKeyView)
    ensures
        SeededLweKeyswitchKey::spec_unversionize(SeededLweKeyswitchKeyVersionsView::V0(k)) == Some(
            k,
        ),
{
}

/// Whether an abstract seeded keyswitch key can be encoded faithfully.
pub open spec fn seeded_ksk_valid(k: SeededLweKeyswitchKeyView) -> bool {
    &&& 0 <= k.decomp_base_log <= usize::MAX
    &&& 0 <= k.decomp_level_count <= usize::MAX
    &&& 0 <= k.output_lwe_size <= usize::MAX
    &&& k.data.len() < 0x1_0000_0000_0000_0000
}

/// The bytes of a seeded keyswitch key: the three size parameters, the
/// compression seed, the ciphertext modulus, then the container.
pub open spec fn seeded_ksk_enc(k: SeededLweKeyswitchKeyView) -> Seq<u8> {
    u64_le(k.decomp_base_log as u64) + u64_le(k.decomp_level_count as u64) + u64_le(
        k.output_lwe_size as u64,
    ) + u128_le(k.compression_seed) + u128_le(k.ciphertext_modulus) + limbs_enc(k.data)
}

/// The unique prefix parse of a seeded keyswitch key.
pub open spec fn parse_seeded_ksk(b: Seq<u8>) -> Option<(SeededLweKeyswitchKeyView, int)> {
    match parse_u64(b) {
        None => None,
        Some((bl, _)) => match parse_u64(b.skip(8)) {
            None => None,
            Some((dlc, _)) => match parse_u64(b.skip(16)) {
                None => None,
                Some((out, _)) => match parse_u128(b.skip(24)) {
                    None => None,
                    Some((seed, _)) => match parse_u128(b.skip(40)) {
                        None => None,
                        Some((cm, _)) => if bl > usize::MAX as u64 || dlc > usize::MAX as u64
                            || out > usize::MAX as u64 {
                            None
                        } else {
                            match parse_limbs(b.skip(56)) {
                                None => None,
                                Some((data, n)) => Some(
                                    (
                                        SeededLweKeyswitchKeyView {
                                            data,
                                            decomp_base_log: bl as int,
                                            decomp_level_count: dlc as int,
                                            output_lwe_size: out as int,
                                            compression_seed: seed,
                                            ciphertext_modulus: cm,
                                        },
                                        56 + n,
                                    ),
                                ),
                            }
                        },
                    },
                },
            },
        },
    }
}

impl Named for SeededLweKeyswitchKey {
    open spec fn spec_name() -> Seq<u8> {
        ascii_bytes("SeededLweKeyswitchKey"@)
    }

    proof fn lemma_name_len() {
        reveal_strlit("SeededLweKeyswitchKey");
    }

    fn name_bytes() -> (r: Vec<u8>) {
        proof {
            reveal_strlit("SeededLweKeyswitchKey");
        }
        str_to_bytes("SeededLweKeyswitchKey")
    }
}

impl BinaryCodec for SeededLweKeyswitchKey {
    open spec fn spec_valid(v: SeededLweKeyswitchKeyView) -> bool {
        seeded_ksk_valid(v)
    }

    open spec fn spec_encoding(v: SeededLweKeyswitchKeyView) -> Seq<u8> {
        seeded_ksk_enc(v)
    }

    open spec fn spec_parse(b: Seq<u8>) -> Option<(SeededLweKeyswitchKeyView, int)> {
        parse_seeded_ksk(b)
    }

    proof fn lemma_valid(&self) {
        vstd::std_specs::vec::axiom_spec_len(&self.data);
    }

    proof fn lemma_parse_sound(b: Seq<u8>) {
        if let Some((v, n)) = parse_seeded_ksk(b) {
            lemma_parse_limbs_sound(b.skip(56));
            lemma_limbs_enc_len(v.data);
            lemma_u64_from_le_le(b.take(8));
            lemma_u64_from_le_le(b.skip(8).take(8));
            lemma_u64_from_le_le(b.skip(16).take(8));
            lemma_u128_from_le_le(b.skip(24).take(16));
            lemma_u128_from_le_le(b.skip(40).take(16));
            assert(b.skip(24).take(16).take(8) =~= b.skip(24).take(8));
            assert(b.skip(24).take(16).subrange(8, 16) =~= b.skip(24).subrange(8, 16));
            assert(b.skip(40).take(16).take(8) =~= b.skip(40).take(8));
            assert(b.skip(40).take(16).subrange(8, 16) =~= b.skip(40).subrange(8, 16));
            assert(b.take(n) =~= b.take(8) + b.skip(8).take(8) + b.skip(16).take(8) + b.skip(
                24,
            ).take(16) + b.skip(40).take(16) + b.skip(56).take(n - 56));
        }
    }

    proof fn lemma_parse_complete(v: SeededLweKeyswitchKeyView, b: Seq<u8>) {
        let e = seeded_ksk_enc(v);
        lemma_limbs_enc_len(v.data);
        lemma_u64_le_from(v.decomp_base_log as u64);
        lemma_u64_le_from(v.decomp_level_count as u64);
        lemma_u64_le_from(v.output_lwe_size as u64);
        lemma_u128_le_from(v.compression_seed);
        lemma_u128_le_from(v.ciphertext_modulus);
        assert forall|i: int| 0 <= i < e.len() implies b[i] == e[i] by {
            assert(b.take(e.len() as int)[i] == e[i]);
        }
        assert(b.take(8) =~= u64_le(v.decomp_base_log as u64));
        assert(b.skip(8).take(8) =~= u64_le(v.decomp_level_count as u64));
        assert(b.skip(16).take(8) =~= u64_le(v.output_lwe_size as u64));
        assert(b.skip(24).take(16) =~= u128_le(v.compression_seed));
        assert(b.skip(24).take(16).take(8) =~= b.skip(24).take(8));
        assert(b.skip(24).take(16).subrange(8, 16) =~= b.skip(24).subrange(8, 16));
        assert(b.skip(40).take(16) =~= u128_le(v.ciphertext_modulus));
        assert(b.skip(40).take(16).take(8) =~= b.skip(40).take(8));
        assert(b.skip(40).take(16).subrange(8, 16) =~= b.skip(40).subrange(8, 16));
        assert(b.skip(56).take(limbs_enc(v.data).len() as int) =~= limbs_enc(v.data)) by {
            assert forall|i: int| 0 <= i < limbs_enc(v.data).len() implies b.skip(56)[i] == e[56
                + i] by {
                assert(b.take(e.len() as int)[56 + i] == e[56 + i]);
            }
        }
        lemma_parse_limbs_complete(v.data, b.skip(56));
    }

    fn encode(&self, out: &mut Vec<u8>) {
        write_u64(out, self.decomp_base_log as u64);
        write_u64(out, self.decomp_level_count as u64);
        write_u64(out, self.output_lwe_size as u64);
        write_u128(out, self.compression_seed);
        write_u128(out, self.ciphertext_modulus);
        write_u64s(out, &self.data);
        proof {
            assert(final(out)@ =~= old(out)@ + Self::spec_encoding(self@));
        }
    }

    fn decode(b: &[u8], pos: usize, limit: u64) -> (r: Result<(Self, usize), ()>) {
        let ghost tail = b@.skip(pos as int);
        proof {
            assert(b@.len() == vstd::slice::spec_slice_len(b));
        }
        if b.len() - pos < 56 {
            return Err(());
        }
        let bl = read_u64(b, pos);
        let dlc = read_u64(b, pos + 8);
        let out_size = read_u64(b, pos + 16);
        let seed = read_u128(b, pos + 24);
        let cm = read_u128(b, pos + 40);
        proof {
            assert(tail.take(8) =~= b@.subrange(pos as int, pos as int + 8));
            assert(tail.skip(8).take(8) =~= b@.subrange(pos as int + 8, pos as int + 16));
            assert(tail.skip(16).take(8) =~= b@.subrange(pos as int + 16, pos as int + 24));
            assert(tail.skip(24) =~= b@.skip(pos as int + 24));
            assert(tail.skip(40) =~= b@.skip(pos as int + 40));
            assert(tail.skip(56) =~= b@.skip(pos as int + 56));
        }
        if bl > usize::MAX as u64 || dlc > usize::MAX as u64 || out_size > usize::MAX as u64 {
            return Err(());
        }
        proof {
            if let Some((data0, n0)) = parse_limbs(tail.skip(56)) {
                lemma_limbs_enc_len(data0);
                lemma_parse_limbs_sound(tail.skip(56));
            }
        }
        if limit != 0 && limit < 64 {
            return Err(());
        }
        let inner_limit: u64 = if limit == 0 {
            0
        } else {
            limit - 56
        };
        match read_u64s(b, pos + 56, inner_limit) {
            Ok((data, end)) => Ok(
                (
                    SeededLweKeyswitchKey {
                        data,
                        decomp_base_log: bl as usize,
                        decomp_level_count: dlc as usize,
                        output_lwe_size: out_size as usize,
                        compression_seed: seed,
                        ciphertext_modulus: cm,
                    },
                    end,
                ),
            ),
            Err(_) => Err(()),
        }
    }
}

impl ParameterSetConformant for SeededLweKeyswitchKey {
    type ParameterSet = KeyswitchKeyConformanceParams;

    open spec fn spec_is_conformant(
        v: SeededLweKeyswitchKeyView,
        parameter_set: KeyswitchKeyConformanceParams,
    ) -> bool {
        &&& v.decomp_base_log == parameter_set.decomp_base_log
        &&& v.decomp_level_count == parameter_set.decomp_level_count
        &&& v.output_lwe_size == parameter_set.output_lwe_size
        &&& v.ciphertext_modulus == parameter_set.ciphertext_modulus
    }

    fn is_conformant(&self, parameter_set: &KeyswitchKeyConformanceParams) -> (r: bool) {
        self.decomp_base_log == parameter_set.decomp_base_log && self.decomp_level_count
            == parameter_set.decomp_level_count && self.output_lwe_size
            == parameter_set.output_lwe_size && self.ciphertext_modulus
            == parameter_set.ciphertext_modulus
    }
}

/// The tag of the first persisted shape of the seeded keyswitch key.
pub const SEEDED_KSK_V0_TAG: u8 = 0;

/// The tag of the current shape of the seeded keyswitch key.
pub const SEEDED_KSK_V1_TAG: u8 = 1;

impl BinaryCodec for SeededLweKeyswitchKeyVersions {
    open spec fn spec_valid(v: SeededLweKeyswitchKeyVersionsView) -> bool {
        match v {
            SeededLweKeyswitchKeyVersionsView::V0(k) => seeded_ksk_valid(k),
            SeededLweKeyswitchKeyVersionsView::V1(k) => seeded_ksk_valid(k),
        }
    }

    open spec fn spec_encoding(v: SeededLweKeyswitchKeyVersionsView) -> Seq<u8> {
        match v {
            SeededLweKeyswitchKeyVersionsView::V0(k) => seq![SEEDED_KSK_V0_TAG] + seeded_ksk_enc(k),
            SeededLweKeyswitchKeyVersionsView::V1(k) => seq![SEEDED_KSK_V1_TAG] + seeded_ksk_enc(k),
        }
    }

    open spec fn spec_parse(b: Seq<u8>) -> Option<(SeededLweKeyswitchKeyVersionsView, int)> {
        if b.len() >= 1 && (b[0] == SEEDED_KSK_V0_TAG || b[0] == SEEDED_KSK_V1_TAG) {
            match parse_seeded_ksk(b.skip(1)) {
                Some((k, n)) => Some(
                    (
                        if b[0] == SEEDED_KSK_V0_TAG {
                            SeededLweKeyswitchKeyVersionsView::V0(k)
                        } else {
                            SeededLweKeyswitchKeyVersionsView::V1(k)
                        },
                        1 + n,
                    ),
                ),
                None => None,
            }
        } else {
            None
        }
    }

    proof fn lemma_valid(&self) {
        match self {
            SeededLweKeyswitchKeyVersions::V0(k) => {
                vstd::std_specs::vec::axiom_spec_len(&k.data);
            },
            SeededLweKeyswitchKeyVersions::V1(k) => {
                vstd::std_specs::vec::axiom_spec_len(&k.data);
            },
        }
    }

    proof fn lemma_parse_sound(b: Seq<u8>) {
        if b.len() >= 1 && (b[0] == SEEDED_KSK_V0_TAG || b[0] == SEEDED_KSK_V1_TAG) {
            SeededLweKeyswitchKey::lemma_parse_sound(b.skip(1));
            if let Some((k, n)) = parse_seeded_ksk(b.skip(1)) {
                assert(b.take(1 + n) =~= seq![b[0]] + b.skip(1).take(n));
            }
        }
    }

    proof fn lemma_parse_complete(v: SeededLweKeyswitchKeyVersionsView, b: Seq<u8>) {
        let e = Self::spec_encoding(v);
        let inner = match v {
            SeededLweKeyswitchKeyVersionsView::V0(k) => k,
            SeededLweKeyswitchKeyVersionsView::V1(k) => k,
        };
        assert(b[0] == e[0]) by {
            assert(b.take(e.len() as int)[0] == e[0]);
        }
        assert(b.skip(1).take(seeded_ksk_enc(inner).len() as int) =~= seeded_ksk_enc(inner)) by {
            assert forall|i: int| 0 <= i < seeded_ksk_enc(inner).len() implies b.skip(1)[i]
                == seeded_ksk_enc(inner)[i] by {
                assert(b.take(e.len() as int)[1 + i] == e[1 + i]);
            }
        }
        SeededLweKeyswitchKey::lemma_parse_complete(inner, b.skip(1));
    }

    fn encode(&self, out: &mut Vec<u8>) {
        match self {
            SeededLweKeyswitchKeyVersions::V0(k0) => {
                write_u8(out, SEEDED_KSK_V0_TAG);
                write_u64(out, k0.decomp_base_log as u64);
                write_u64(out, k0.decomp_level_count as u64);
                write_u64(out, k0.output_lwe_size as u64);
                write_u128(out, k0.compression_seed);
                write_u128(out, k0.ciphertext_modulus);
                write_u64s(out, &k0.data);
            },
            SeededLweKeyswitchKeyVersions::V1(k) => {
                write_u8(out, SEEDED_KSK_V1_TAG);
                k.encode(out);
            },
        }
        proof {
            assert(final(out)@ =~= old(out)@ + Self::spec_encoding(self@));
        }
    }

    fn decode(b: &[u8], pos: usize, limit: u64) -> (r: Result<(Self, usize), ()>) {
        if pos >= b.len() {
            return Err(());
        }
        let tag = b[pos];
        if tag != SEEDED_KSK_V0_TAG && tag != SEEDED_KSK_V1_TAG {
            return Err(());
        }
        if limit == 1 {
            proof {
                if let Some((k, n)) = parse_seeded_ksk(b@.skip(pos as int).skip(1)) {
                    SeededLweKeyswitchKey::lemma_parse_sound(b@.skip(pos as int).skip(1));
                }
            }
            return Err(());
        }
        let inner_limit: u64 = if limit == 0 {
            0
        } else {
            limit - 1
        };
        proof {
            assert(b@.skip(pos as int).skip(1) =~= b@.skip(pos as int + 1));
        }
        match SeededLweKeyswitchKey::decode(b, pos + 1, inner_limit) {
            Ok((k, end)) => if tag == SEEDED_KSK_V0_TAG {
                let SeededLweKeyswitchKey {
                    data,
                    decomp_base_log,
                    decomp_level_count,
                    output_lwe_size,
                    compression_seed,
                    ciphertext_modulus,
                } = k;
                Ok(
                    (
                        SeededLweKeyswitchKeyVersions::V0(
                            SeededLweKeyswitchKeyV0 {
                                data,
                                decomp_base_log,
                                decomp_level_count,
                                output_lwe_size,
                                compression_seed,
                                ciphertext_modulus,
                            },
                        ),
                        end,
                    ),
                )
            } else {
                Ok((SeededLweKeyswitchKeyVersions::V1(k), end))
            },
            Err(_) => Err(()),
        }
    }
}

} // verus!
