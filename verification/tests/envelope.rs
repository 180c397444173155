//! Envelope behaviour: header integrity, size enforcement, conformance
//! gating, and version drift.
use safe_serialization::codec::{BinaryCodec, Named};
use safe_serialization::conformance::ListSizeConstraint;
use safe_serialization::fields::{SerializableFp, SerializableQuadExtField};
use safe_serialization::lwe_keyswitch_key::{
    KeyswitchKeyConformanceParams, LweKeyswitchKey, LweKeyswitchKeyV0, LweKeyswitchKeyVersions,
};
use safe_serialization::safe_serialization::{
    crate_version_bytes, serialization_version_bytes, versioning_version_bytes,
    DeserializationConfig, SerializationConfig, SerializationHeader, SerializationVersioningMode,
};
use safe_serialization::seeded_lwe_keyswitch_key::SeededLweKeyswitchKey;
use safe_serialization::versioning::SerializableFpVersions;

fn sample_fp() -> SerializableFp {
    SerializableFp { val: vec![27, 10, 20] }
}

#[test]
fn round_trip_versioned() {
    let mut buffer: Vec<u8> = vec![];
    SerializationConfig::new(1 << 20)
        .serialize_into(sample_fp(), &mut buffer)
        .unwrap();

    let back: SerializableFp = DeserializationConfig::new(1 << 20, &ListSizeConstraint::exact_size(3))
        .deserialize_from(buffer.as_slice())
        .unwrap();
    assert_eq!(back, sample_fp());
}

#[test]
fn round_trip_unversioned() {
    let mut buffer: Vec<u8> = vec![];
    SerializationConfig::new(1 << 20)
        .disable_versioning()
        .serialize_into(sample_fp(), &mut buffer)
        .unwrap();

    let back: SerializableFp = DeserializationConfig::new(1 << 20, &ListSizeConstraint::exact_size(3))
        .deserialize_from(buffer.as_slice())
        .unwrap();
    assert_eq!(back, sample_fp());
}

#[test]
fn trailing_bytes_are_ignored() {
    let mut buffer: Vec<u8> = vec![];
    SerializationConfig::new(1 << 20)
        .serialize_into(sample_fp(), &mut buffer)
        .unwrap();
    buffer.extend_from_slice(&[0xde, 0xad, 0xbe, 0xef]);

    let back: SerializableFp = DeserializationConfig::new(1 << 20, &ListSizeConstraint::exact_size(3))
        .deserialize_from(buffer.as_slice())
        .unwrap();
    assert_eq!(back, sample_fp());
}

#[test]
fn wrong_requested_type_is_rejected() {
    let mut buffer: Vec<u8> = vec![];
    SerializationConfig::new(1 << 20)
        .serialize_into(sample_fp(), &mut buffer)
        .unwrap();

    let r: Result<SerializableQuadExtField<SerializableFp>, String> =
        DeserializationConfig::new(1 << 20, &ListSizeConstraint::exact_size(3))
            .deserialize_from(buffer.as_slice());
    let msg = r.unwrap_err();
    assert!(msg.contains("expected type SerializableQuadExtField"));
    assert!(msg.contains("got type SerializableFp"));
}

#[test]
fn size_limit_exact_boundary_at_encode() {
    // The payload of a 3-limb element is 8 bytes of count plus 24 bytes of
    // limbs: 32 bytes in all.
    let mut buffer: Vec<u8> = vec![];
    assert!(SerializationConfig::new(31)
        .disable_versioning()
        .serialize_into(sample_fp(), &mut buffer)
        .is_err());
    assert!(buffer.is_empty());

    assert!(SerializationConfig::new(32)
        .disable_versioning()
        .serialize_into(sample_fp(), &mut buffer)
        .is_ok());
}

#[test]
fn size_limit_exact_boundary_at_decode() {
    let mut buffer: Vec<u8> = vec![];
    SerializationConfig::new_with_unlimited_size()
        .disable_versioning()
        .serialize_into(sample_fp(), &mut buffer)
        .unwrap();

    // The payload budget is the limit minus the 1000-byte header ceiling.
    let tight: Result<SerializableFp, String> =
        DeserializationConfig::new(1000 + 31, &ListSizeConstraint::exact_size(3))
            .deserialize_from(buffer.as_slice());
    assert!(tight.is_err());

    let enough: Result<SerializableFp, String> =
        DeserializationConfig::new(1000 + 32, &ListSizeConstraint::exact_size(3))
            .deserialize_from(buffer.as_slice());
    assert!(enough.is_ok());
}

#[test]
fn limit_below_header_ceiling_is_rejected_up_front() {
    let mut buffer: Vec<u8> = vec![];
    SerializationConfig::new_with_unlimited_size()
        .serialize_into(sample_fp(), &mut buffer)
        .unwrap();

    let r: Result<SerializableFp, String> =
        DeserializationConfig::new(1000, &ListSizeConstraint::exact_size(3))
            .deserialize_from(buffer.as_slice());
    assert!(r.is_err());
}

#[test]
fn conformance_gating_on_identical_bytes() {
    let mut buffer: Vec<u8> = vec![];
    SerializationConfig::new(1 << 20)
        .serialize_into(sample_fp(), &mut buffer)
        .unwrap();

    for bad in [
        ListSizeConstraint::exact_size(2),
        ListSizeConstraint::exact_size(4),
        ListSizeConstraint::try_size_in_range(1, 2).unwrap(),
        ListSizeConstraint::try_size_in_range(4, 5).unwrap(),
    ] {
        let r: Result<SerializableFp, String> =
            DeserializationConfig::new(1 << 20, &bad).deserialize_from(buffer.as_slice());
        let msg = r.unwrap_err();
        assert!(msg.contains("type SerializableFp"));
        assert!(msg.contains("not conformant"));
    }

    for good in [
        ListSizeConstraint::exact_size(3),
        ListSizeConstraint::try_size_in_range(2, 3).unwrap(),
        ListSizeConstraint::try_size_in_range(3, 4).unwrap(),
        ListSizeConstraint::try_size_in_range(2, 4).unwrap(),
    ] {
        let r: Result<SerializableFp, String> =
            DeserializationConfig::new(1 << 20, &good).deserialize_from(buffer.as_slice());
        assert!(r.is_ok());
    }
}

#[test]
fn conformance_can_be_disabled() {
    let mut buffer: Vec<u8> = vec![];
    SerializationConfig::new(1 << 20)
        .serialize_into(sample_fp(), &mut buffer)
        .unwrap();

    let r: Result<SerializableFp, String> =
        DeserializationConfig::new(1 << 20, &ListSizeConstraint::exact_size(2))
            .disable_conformance_check()
            .deserialize_from(buffer.as_slice());
    assert!(r.is_ok());
}

fn handmade_artifact(
    mode: SerializationVersioningMode,
    versioning_version: Vec<u8>,
) -> Vec<u8> {
    let header = SerializationHeader {
        header_version: serialization_version_bytes(),
        versioning_mode: mode,
        versioning_version,
        name: SerializableFp::name_bytes(),
    };
    let mut buffer: Vec<u8> = vec![];
    header.encode_into(&mut buffer);
    match mode {
        SerializationVersioningMode::Versioned => {
            SerializableFpVersions::V0(sample_fp()).encode(&mut buffer)
        }
        SerializationVersioningMode::Unversioned => sample_fp().encode(&mut buffer),
    }
    buffer
}

#[test]
fn unversioned_artifact_fails_under_producer_drift() {
    // Written by implementation version "0.7", read by the running one.
    let drifted = handmade_artifact(
        SerializationVersioningMode::Unversioned,
        vec![b'0', b'.', b'7'],
    );
    let r: Result<SerializableFp, String> =
        DeserializationConfig::new(1 << 20, &ListSizeConstraint::exact_size(3))
            .deserialize_from(drifted.as_slice());
    let msg = r.unwrap_err();
    assert!(msg.contains("SerializableFp"));
    assert!(msg.contains("0.7"));

    let current = handmade_artifact(
        SerializationVersioningMode::Unversioned,
        crate_version_bytes(),
    );
    let r: Result<SerializableFp, String> =
        DeserializationConfig::new(1 << 20, &ListSizeConstraint::exact_size(3))
            .deserialize_from(current.as_slice());
    assert!(r.is_ok());
}

#[test]
fn versioned_artifact_fails_only_on_scheme_drift() {
    let drifted = handmade_artifact(
        SerializationVersioningMode::Versioned,
        vec![b'0', b'.', b'9'],
    );
    let r: Result<SerializableFp, String> =
        DeserializationConfig::new(1 << 20, &ListSizeConstraint::exact_size(3))
            .deserialize_from(drifted.as_slice());
    let msg = r.unwrap_err();
    assert!(msg.contains("expected versioning scheme version 0.1"));
    assert!(msg.contains("got version 0.9"));

    let current = handmade_artifact(
        SerializationVersioningMode::Versioned,
        versioning_version_bytes(),
    );
    let r: Result<SerializableFp, String> =
        DeserializationConfig::new(1 << 20, &ListSizeConstraint::exact_size(3))
            .deserialize_from(current.as_slice());
    assert!(r.is_ok());
}

#[test]
fn header_validation_can_be_disabled() {
    let drifted = handmade_artifact(
        SerializationVersioningMode::Unversioned,
        vec![b'0', b'.', b'7'],
    );
    let r: Result<SerializableFp, String> =
        DeserializationConfig::new(1 << 20, &ListSizeConstraint::exact_size(3))
            .disable_header_validation()
            .deserialize_from(drifted.as_slice());
    assert!(r.is_ok());
}

#[test]
fn unlimited_and_unchecked_configs() {
    let mut buffer: Vec<u8> = vec![];
    SerializationConfig::new(1)
        .disable_size_limit()
        .serialize_into(sample_fp(), &mut buffer)
        .unwrap();

    let r: Result<SerializableFp, String> =
        DeserializationConfig::new_with_unlimited_size(&ListSizeConstraint::exact_size(3))
            .deserialize_from(buffer.as_slice());
    assert_eq!(r.unwrap(), sample_fp());

    let r: Result<SerializableFp, String> =
        DeserializationConfig::<ListSizeConstraint>::new_without_conformance(1 << 20)
            .deserialize_from(buffer.as_slice());
    assert_eq!(r.unwrap(), sample_fp());

    let r: Result<SerializableFp, String> =
        DeserializationConfig::<ListSizeConstraint>::new_unsafe()
            .deserialize_from(buffer.as_slice());
    assert_eq!(r.unwrap(), sample_fp());

    let r: Result<SerializableFp, String> =
        DeserializationConfig::new(1, &ListSizeConstraint::exact_size(3))
            .disable_size_limit()
            .deserialize_from(buffer.as_slice());
    assert_eq!(r.unwrap(), sample_fp());
}

#[test]
fn size_range_constraint_rejects_empty_range() {
    assert!(ListSizeConstraint::try_size_in_range(3, 2).is_err());
}

#[test]
fn truncated_stream_is_rejected() {
    let mut buffer: Vec<u8> = vec![];
    SerializationConfig::new(1 << 20)
        .serialize_into(sample_fp(), &mut buffer)
        .unwrap();
    buffer.truncate(buffer.len() - 1);

    let r: Result<SerializableFp, String> =
        DeserializationConfig::new(1 << 20, &ListSizeConstraint::exact_size(3))
            .deserialize_from(buffer.as_slice());
    assert!(r.is_err());
}

#[test]
fn fp2_round_trips_under_its_own_name() {
    let value = SerializableQuadExtField {
        c0: SerializableFp { val: vec![1, 2] },
        c1: SerializableFp { val: vec![3] },
    };
    let mut buffer: Vec<u8> = vec![];
    SerializationConfig::new(1 << 20)
        .serialize_into(value.clone(), &mut buffer)
        .unwrap();

    let back: SerializableQuadExtField<SerializableFp> =
        DeserializationConfig::new(1 << 20, &ListSizeConstraint::try_size_in_range(1, 2).unwrap())
            .deserialize_from(buffer.as_slice())
            .unwrap();
    assert_eq!(back, value);
}

#[test]
fn keyswitch_key_round_trips_with_conformance() {
    let ksk = LweKeyswitchKey {
        data: (0..12).collect(),
        decomp_base_log: 4,
        decomp_level_count: 2,
        output_lwe_size: 3,
        ciphertext_modulus: 1u128 << 64,
    };
    let params = KeyswitchKeyConformanceParams {
        decomp_base_log: 4,
        decomp_level_count: 2,
        output_lwe_size: 3,
        ciphertext_modulus: 1u128 << 64,
    };
    let mut buffer: Vec<u8> = vec![];
    SerializationConfig::new(1 << 20)
        .serialize_into(ksk.clone(), &mut buffer)
        .unwrap();

    let back: LweKeyswitchKey = DeserializationConfig::new(1 << 20, &params)
        .deserialize_from(buffer.as_slice())
        .unwrap();
    assert_eq!(back, ksk);

    let wrong_params = KeyswitchKeyConformanceParams {
        decomp_level_count: 3,
        ..params
    };
    let r: Result<LweKeyswitchKey, String> = DeserializationConfig::new(1 << 20, &wrong_params)
        .deserialize_from(buffer.as_slice());
    assert!(r.unwrap_err().contains("not conformant"));
}

#[test]
fn historical_keyswitch_artifact_is_upgraded_through_the_envelope() {
    // A versioned artifact carrying the first persisted shape: decoding
    // runs the upgrade chain, so the decompression levels of every block
    // come back reversed.
    let v0 = LweKeyswitchKeyV0 {
        data: (0..12).collect(),
        decomp_base_log: 4,
        decomp_level_count: 2,
        output_lwe_size: 3,
        ciphertext_modulus: 1u128 << 64,
    };
    let header = SerializationHeader {
        header_version: serialization_version_bytes(),
        versioning_mode: SerializationVersioningMode::Versioned,
        versioning_version: versioning_version_bytes(),
        name: LweKeyswitchKey::name_bytes(),
    };
    let mut buffer: Vec<u8> = vec![];
    header.encode_into(&mut buffer);
    LweKeyswitchKeyVersions::V0(v0).encode(&mut buffer);

    let params = KeyswitchKeyConformanceParams {
        decomp_base_log: 4,
        decomp_level_count: 2,
        output_lwe_size: 3,
        ciphertext_modulus: 1u128 << 64,
    };
    let back: LweKeyswitchKey = DeserializationConfig::new(1 << 20, &params)
        .deserialize_from(buffer.as_slice())
        .unwrap();
    assert_eq!(back.data, vec![3, 4, 5, 0, 1, 2, 9, 10, 11, 6, 7, 8]);
}

#[test]
fn ragged_historical_keyswitch_artifact_is_rejected() {
    let v0 = LweKeyswitchKeyV0 {
        data: (0..11).collect(),
        decomp_base_log: 4,
        decomp_level_count: 2,
        output_lwe_size: 3,
        ciphertext_modulus: 1u128 << 64,
    };
    let header = SerializationHeader {
        header_version: serialization_version_bytes(),
        versioning_mode: SerializationVersioningMode::Versioned,
        versioning_version: versioning_version_bytes(),
        name: LweKeyswitchKey::name_bytes(),
    };
    let mut buffer: Vec<u8> = vec![];
    header.encode_into(&mut buffer);
    LweKeyswitchKeyVersions::V0(v0).encode(&mut buffer);

    let r: Result<LweKeyswitchKey, String> =
        DeserializationConfig::<KeyswitchKeyConformanceParams>::new_without_conformance(1 << 20)
            .deserialize_from(buffer.as_slice());
    assert!(r.is_err());
}

#[test]
fn seeded_keyswitch_key_round_trips() {
    let ksk = SeededLweKeyswitchKey {
        data: vec![5, 6, 7],
        decomp_base_log: 3,
        decomp_level_count: 3,
        output_lwe_size: 1,
        compression_seed: 42,
        ciphertext_modulus: 1u128 << 32,
    };
    let params = KeyswitchKeyConformanceParams {
        decomp_base_log: 3,
        decomp_level_count: 3,
        output_lwe_size: 1,
        ciphertext_modulus: 1u128 << 32,
    };
    let mut buffer: Vec<u8> = vec![];
    SerializationConfig::new(1 << 20)
        .serialize_into(ksk.clone(), &mut buffer)
        .unwrap();

    let back: SeededLweKeyswitchKey = DeserializationConfig::new(1 << 20, &params)
        .deserialize_from(buffer.as_slice())
        .unwrap();
    assert_eq!(back, ksk);

    // The two key kinds carry different names: the same bytes are refused
    // when requested as the unseeded kind.
    let r: Result<LweKeyswitchKey, String> = DeserializationConfig::new(
        1 << 20,
        &params,
    )
    .deserialize_from(buffer.as_slice());
    assert!(r.unwrap_err().contains("got type SeededLweKeyswitchKey"));
}
