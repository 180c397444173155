//! Field-element conversions, the public-parameter container, and error
//! reporting.
use safe_serialization::codec::Named;
use safe_serialization::conformance::ListSizeConstraint;
use safe_serialization::safe_serialization::{DeserializationConfig, SerializationConfig};
use safe_serialization::errors::{InvalidSerializedAffineError, InvalidSerializedFpError};
use safe_serialization::fields::{
    try_vec_to_array, Fp, Fp12, Fp2, Fp6, SerializableCubicExtField, SerializableFp,
    SerializableFp12, SerializableFp2, SerializableFp6, SerializableQuadExtField,
};
use safe_serialization::public_params::{
    GroupElements, PublicParams, SerializablePublicParams, SerializablePublicParamsVersions,
};
use safe_serialization::versioning::Versionize;

#[test]
fn vec_to_array_round_trip() {
    let a: [u8; 4] = try_vec_to_array(vec![1, 2, 3, 4]).unwrap();
    assert_eq!(a, [1, 2, 3, 4]);
}

#[test]
fn vec_to_array_reports_both_lengths() {
    let e = try_vec_to_array::<u8, 4>(vec![1, 2, 3]).unwrap_err();
    assert_eq!(e.expected_len, 4);
    assert_eq!(e.found_len, 3);
    let msg = e.message();
    assert_eq!(msg, "Invalid serialized array: found array of size 3, expected 4");
}

#[test]
fn fp_conversion_round_trip() {
    let fp = Fp { limbs: [1, 2, 3, 4, 5, 6] };
    let ser = SerializableFp::from(fp);
    assert_eq!(ser.val, vec![1, 2, 3, 4, 5, 6]);
    let back = Fp::try_from(ser).unwrap();
    assert_eq!(back, fp);
}

#[test]
fn fp_conversion_rejects_wrong_limb_count() {
    let e = Fp::try_from(SerializableFp { val: vec![1, 2] }).unwrap_err();
    assert_eq!(e.expected_len, 6);
    assert_eq!(e.found_len, 2);
}

fn fp(k: u64) -> Fp {
    Fp { limbs: [k, 0, 0, 0, 0, 0] }
}

#[test]
fn extension_field_round_trips() {
    let f2 = Fp2 { c0: fp(1), c1: fp(2) };
    assert_eq!(Fp2::try_from(SerializableFp2::from(f2)).unwrap(), f2);

    let f6 = Fp6 {
        c0: Fp2 { c0: fp(1), c1: fp(2) },
        c1: Fp2 { c0: fp(3), c1: fp(4) },
        c2: Fp2 { c0: fp(5), c1: fp(6) },
    };
    assert_eq!(Fp6::try_from(SerializableFp6::from(f6)).unwrap(), f6);

    let f12 = Fp12 { c0: f6, c1: f6 };
    assert_eq!(Fp12::try_from(SerializableFp12::from(f12)).unwrap(), f12);
}

#[test]
fn extension_field_reports_first_bad_length() {
    let bad = SerializableQuadExtField {
        c0: SerializableFp { val: vec![0; 6] },
        c1: SerializableFp { val: vec![0; 5] },
    };
    let e = Fp2::try_from(bad).unwrap_err();
    assert_eq!(e.expected_len, 6);
    assert_eq!(e.found_len, 5);
}

#[test]
fn affine_error_messages_name_the_failure() {
    let msg = InvalidSerializedAffineError::InvalidCompressedXCoordinate.message();
    assert!(msg.contains("X coordinate"));
}

#[test]
fn fp_error_message_reports_both_lengths() {
    let e = InvalidSerializedFpError { expected_len: 6, found_len: 2 };
    let msg = e.message();
    assert_eq!(msg, "Invalid serialized FP: found array of size 2, expected 6");
}

#[test]
fn type_names_are_stable() {
    assert_eq!(SerializableFp::name_bytes(), b"SerializableFp".to_vec());
    assert_eq!(
        SerializableQuadExtField::<SerializableFp>::name_bytes(),
        b"SerializableQuadExtField".to_vec()
    );
}

fn sample_public_params() -> PublicParams {
    PublicParams {
        g_lists: GroupElements { g_list: vec![], g_hat_list: vec![] },
        D: 1,
        n: 2,
        d: 3,
        k: 4,
        B: 5,
        B_r: 6,
        B_bound: 7,
        m_bound: 8,
        q: 9,
        t: 10,
        hash: [1; 256],
        hash_R: [2; 256],
        hash_t: [3; 256],
        hash_w: [4; 256],
        hash_agg: [5; 256],
        hash_lmap: [6; 256],
        hash_phi: [7; 256],
        hash_xi: [8; 256],
        hash_z: [9; 256],
        hash_chi: [10; 256],
    }
}

#[test]
fn public_params_round_trip() {
    let p = sample_public_params();
    let ser = SerializablePublicParams::from(p.clone());
    assert_eq!(ser.hash, vec![1; 256]);
    assert_eq!(ser.hash_chi, vec![10; 256]);
    let back = PublicParams::try_from(ser).unwrap();
    assert_eq!(back, p);
}

#[test]
fn public_params_reject_short_hash() {
    let mut ser = SerializablePublicParams::from(sample_public_params());
    ser.hash_w.truncate(255);
    let e = PublicParams::try_from(ser).unwrap_err();
    assert_eq!(e.expected_len, 256);
    assert_eq!(e.found_len, 255);
}

#[test]
fn public_params_versionize_round_trip() {
    let ser = SerializablePublicParams::from(sample_public_params());
    let tagged = ser.clone().versionize();
    assert!(matches!(tagged, SerializablePublicParamsVersions::V0(_)));
    let back = SerializablePublicParams::unversionize(tagged).unwrap();
    assert_eq!(back, ser);
}

#[test]
fn fp6_travels_through_the_envelope() {
    let value = SerializableFp6::from(Fp6 {
        c0: Fp2 { c0: fp(1), c1: fp(2) },
        c1: Fp2 { c0: fp(3), c1: fp(4) },
        c2: Fp2 { c0: fp(5), c1: fp(6) },
    });
    let mut buffer: Vec<u8> = vec![];
    SerializationConfig::new(1 << 20)
        .serialize_into(value.clone(), &mut buffer)
        .unwrap();

    let back: SerializableFp6 =
        DeserializationConfig::new(1 << 20, &ListSizeConstraint::exact_size(6))
            .deserialize_from(buffer.as_slice())
            .unwrap();
    assert_eq!(back, value);

    let r: Result<SerializableFp6, String> =
        DeserializationConfig::new(1 << 20, &ListSizeConstraint::exact_size(5))
            .deserialize_from(buffer.as_slice());
    assert!(r.unwrap_err().contains("not conformant"));
}

#[test]
fn multi_digit_lengths_render_exactly() {
    let e = try_vec_to_array::<u8, 256>(vec![0; 1024]).unwrap_err();
    assert_eq!(
        e.message(),
        "Invalid serialized array: found array of size 1024, expected 256"
    );
}
