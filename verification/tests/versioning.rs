//! Versioning engine behaviour: round trips through the current shape and
//! upgrades of historical shapes, including the level-order reversal of
//! the keyswitch key.
use safe_serialization::fields::{
    SerializableCubicExtField, SerializableFp, SerializableQuadExtField,
};
use safe_serialization::points::{AffinePoint, SerializableAffine};
use safe_serialization::lwe_keyswitch_key::{
    LweKeyswitchKey, LweKeyswitchKeyV0, LweKeyswitchKeyVersions,
};
use safe_serialization::seeded_lwe_keyswitch_key::{
    SeededLweKeyswitchKey, SeededLweKeyswitchKeyV0, SeededLweKeyswitchKeyVersions,
};
use safe_serialization::versioning::Versionize;

#[test]
fn fp_versionize_round_trip() {
    let fp = SerializableFp { val: vec![1, 2, 3] };
    let back = SerializableFp::unversionize(fp.clone().versionize()).unwrap();
    assert_eq!(back, fp);
}

#[test]
fn quad_ext_versionize_round_trip() {
    let q = SerializableQuadExtField {
        c0: SerializableFp { val: vec![7] },
        c1: SerializableFp { val: vec![8, 9] },
    };
    let back = SerializableQuadExtField::unversionize(q.clone().versionize()).unwrap();
    assert_eq!(back, q);
}

#[test]
fn cubic_ext_versionize_round_trip() {
    let c = SerializableCubicExtField {
        c0: SerializableFp { val: vec![1] },
        c1: SerializableFp { val: vec![2] },
        c2: SerializableFp { val: vec![3] },
    };
    let back = SerializableCubicExtField::unversionize(c.clone().versionize()).unwrap();
    assert_eq!(back, c);
}

#[test]
fn affine_versionize_round_trip() {
    let a = SerializableAffine::compressed(AffinePoint::zero());
    let back = SerializableAffine::<SerializableFp>::unversionize(a.clone().versionize()).unwrap();
    assert_eq!(back, a);
}

fn sample_ksk() -> LweKeyswitchKey {
    LweKeyswitchKey {
        data: (0..12).collect(),
        decomp_base_log: 4,
        decomp_level_count: 2,
        output_lwe_size: 3,
        ciphertext_modulus: 1u128 << 64,
    }
}

#[test]
fn ksk_versionize_round_trip() {
    let ksk = sample_ksk();
    let back = LweKeyswitchKey::unversionize(ksk.clone().versionize()).unwrap();
    assert_eq!(back, ksk);
}

#[test]
fn ksk_historical_upgrade_reverses_levels() {
    // Two blocks of two levels of three elements each: within every block
    // the two level sub-blocks swap places.
    let v0 = LweKeyswitchKeyV0 {
        data: (0..12).collect(),
        decomp_base_log: 4,
        decomp_level_count: 2,
        output_lwe_size: 3,
        ciphertext_modulus: 1u128 << 64,
    };
    let upgraded = LweKeyswitchKey::unversionize(LweKeyswitchKeyVersions::V0(v0)).unwrap();
    assert_eq!(upgraded.data, vec![3, 4, 5, 0, 1, 2, 9, 10, 11, 6, 7, 8]);
    assert_eq!(upgraded.decomp_base_log, 4);
    assert_eq!(upgraded.decomp_level_count, 2);
    assert_eq!(upgraded.output_lwe_size, 3);
    assert_eq!(upgraded.ciphertext_modulus, 1u128 << 64);
}

#[test]
fn ksk_historical_upgrade_rejects_ragged_container() {
    // Eleven elements cannot form whole blocks of six.
    let v0 = LweKeyswitchKeyV0 {
        data: (0..11).collect(),
        decomp_base_log: 4,
        decomp_level_count: 2,
        output_lwe_size: 3,
        ciphertext_modulus: 1u128 << 64,
    };
    assert!(LweKeyswitchKey::unversionize(LweKeyswitchKeyVersions::V0(v0)).is_err());
}

#[test]
fn seeded_ksk_versionize_round_trip() {
    let ksk = SeededLweKeyswitchKey {
        data: vec![5, 6, 7],
        decomp_base_log: 3,
        decomp_level_count: 3,
        output_lwe_size: 1,
        compression_seed: 42,
        ciphertext_modulus: 1u128 << 32,
    };
    let back = SeededLweKeyswitchKey::unversionize(ksk.clone().versionize()).unwrap();
    assert_eq!(back, ksk);
}

#[test]
fn seeded_ksk_historical_upgrade_keeps_every_field() {
    let v0 = SeededLweKeyswitchKeyV0 {
        data: vec![5, 6, 7],
        decomp_base_log: 3,
        decomp_level_count: 3,
        output_lwe_size: 1,
        compression_seed: 42,
        ciphertext_modulus: 1u128 << 32,
    };
    let upgraded =
        SeededLweKeyswitchKey::unversionize(SeededLweKeyswitchKeyVersions::V0(v0)).unwrap();
    assert_eq!(upgraded.data, vec![5, 6, 7]);
    assert_eq!(upgraded.decomp_base_log, 3);
    assert_eq!(upgraded.decomp_level_count, 3);
    assert_eq!(upgraded.output_lwe_size, 1);
    assert_eq!(upgraded.compression_seed, 42);
    assert_eq!(upgraded.ciphertext_modulus, 1u128 << 32);
}
