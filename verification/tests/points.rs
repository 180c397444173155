//! Point codec behaviour against the real curve engine: compression round
//! trips, canonical signs, invalid x coordinates, and limb validation.
use ark_ec::AffineRepr;
use safe_serialization::conformance::ListSizeConstraint;
use safe_serialization::errors::{InvalidArraySizeError, InvalidSerializedAffineError};
use safe_serialization::safe_serialization::{DeserializationConfig, SerializationConfig};
use safe_serialization::fields::SerializableFp;
use safe_serialization::points::{AffinePoint, SerializableAffine};

type ArkG1 = ark_ec::short_weierstrass::Affine<ark_bls12_381::g1::Config>;

fn to_point(p: ArkG1) -> AffinePoint {
    AffinePoint {
        x: SerializableFp { val: p.x.0 .0.to_vec() },
        y: SerializableFp { val: p.y.0 .0.to_vec() },
        infinity: p.infinity,
    }
}

#[test]
fn compression_round_trip_on_generator() {
    let gen = ArkG1::generator();
    let p = to_point(gen);
    assert!(p.is_on_curve());

    let compressed = SerializableAffine::compressed(p.clone());
    let back = AffinePoint::try_from(compressed).unwrap();
    assert_eq!(back, p);
}

#[test]
fn compression_round_trip_on_negated_generator() {
    let gen = -ArkG1::generator();
    let p = to_point(gen);
    assert!(p.is_on_curve());

    let compressed = SerializableAffine::compressed(p.clone());
    let back = AffinePoint::try_from(compressed).unwrap();
    assert_eq!(back, p);
}

#[test]
fn canonical_sign_matches_field_order() {
    let gen = ArkG1::generator();
    let expected_sign = gen.y > -gen.y;
    match SerializableAffine::compressed(to_point(gen)) {
        SerializableAffine::Compressed { take_largest_y, .. } => {
            assert_eq!(take_largest_y, expected_sign);
        }
        _ => panic!("expected a compressed point"),
    }
}

#[test]
fn negated_point_takes_the_opposite_sign() {
    let gen = ArkG1::generator();
    let s1 = match SerializableAffine::compressed(to_point(gen)) {
        SerializableAffine::Compressed { take_largest_y, .. } => take_largest_y,
        _ => panic!("expected a compressed point"),
    };
    let s2 = match SerializableAffine::compressed(to_point(-gen)) {
        SerializableAffine::Compressed { take_largest_y, .. } => take_largest_y,
        _ => panic!("expected a compressed point"),
    };
    assert_eq!(s2, !s1);
}

#[test]
fn opposite_sign_yields_the_negated_point() {
    let gen = ArkG1::generator();
    let (x, s) = match SerializableAffine::compressed(to_point(gen)) {
        SerializableAffine::Compressed { x, take_largest_y } => (x, take_largest_y),
        _ => panic!("expected a compressed point"),
    };
    let other = AffinePoint::try_from(SerializableAffine::Compressed {
        x,
        take_largest_y: !s,
    })
    .unwrap();
    assert_eq!(other, to_point(-gen));
}

#[test]
fn x_not_on_curve_fails_for_both_signs() {
    // Find a small x whose curve equation has no square root.
    let mut bad_x: Option<ark_bls12_381::Fq> = None;
    for i in 0u64..64 {
        let xf = ark_bls12_381::Fq::from(i);
        if ArkG1::get_point_from_x_unchecked(xf, true).is_none() {
            bad_x = Some(xf);
            break;
        }
    }
    let xf = bad_x.expect("some small x must be off the curve");
    for sign in [false, true] {
        let r = AffinePoint::try_from(SerializableAffine::Compressed {
            x: SerializableFp { val: xf.0 .0.to_vec() },
            take_largest_y: sign,
        });
        assert_eq!(
            r.unwrap_err(),
            InvalidSerializedAffineError::InvalidCompressedXCoordinate
        );
    }
}

#[test]
fn wrong_limb_count_is_an_fp_error() {
    let r = AffinePoint::try_from(SerializableAffine::Compressed {
        x: SerializableFp { val: vec![1, 2, 3] },
        take_largest_y: true,
    });
    assert_eq!(
        r.unwrap_err(),
        InvalidSerializedAffineError::InvalidFp(InvalidArraySizeError {
            expected_len: 6,
            found_len: 3,
        })
    );
}

#[test]
fn x_at_or_above_the_modulus_is_rejected() {
    // Six maximal limbs denote a value far above the field modulus; the
    // compressed form is refused for both sign choices before the curve
    // engine ever sees it.
    for sign in [false, true] {
        let r = AffinePoint::try_from(SerializableAffine::Compressed {
            x: SerializableFp { val: vec![u64::MAX; 6] },
            take_largest_y: sign,
        });
        assert_eq!(
            r.unwrap_err(),
            InvalidSerializedAffineError::InvalidCompressedXCoordinate
        );
    }
}

#[test]
fn uncompressed_round_trip_without_validation() {
    // The uncompressed form is a pass-through: even coordinates that are
    // not on the curve survive unchanged.
    let p = AffinePoint {
        x: SerializableFp { val: vec![1, 2, 3, 4, 5, 6] },
        y: SerializableFp { val: vec![6, 5, 4, 3, 2, 1] },
        infinity: false,
    };
    let back = AffinePoint::try_from(SerializableAffine::uncompressed(p.clone())).unwrap();
    assert_eq!(back, p);
}

#[test]
fn infinity_round_trips_to_the_identity() {
    let z = AffinePoint::zero();
    let c = SerializableAffine::compressed(z.clone());
    assert_eq!(c, SerializableAffine::Infinity);
    assert_eq!(AffinePoint::try_from(c).unwrap(), z);

    let u = SerializableAffine::uncompressed(z.clone());
    assert_eq!(u, SerializableAffine::Infinity);
    assert_eq!(AffinePoint::try_from(u).unwrap(), z);
}

#[test]
fn off_curve_coordinates_are_detected() {
    let gen = ArkG1::generator();
    let bad_y = gen.y + ark_bls12_381::Fq::from(1u64);
    let p = AffinePoint {
        x: SerializableFp { val: gen.x.0 .0.to_vec() },
        y: SerializableFp { val: bad_y.0 .0.to_vec() },
        infinity: false,
    };
    assert!(!p.is_on_curve());
}

#[test]
fn points_travel_through_the_envelope() {
    let gen = ArkG1::generator();
    let p = to_point(gen);

    for form in [
        SerializableAffine::compressed(p.clone()),
        SerializableAffine::uncompressed(p.clone()),
        SerializableAffine::Infinity,
    ] {
        let mut buffer: Vec<u8> = vec![];
        SerializationConfig::new(1 << 20)
            .serialize_into(form.clone(), &mut buffer)
            .unwrap();
        let back: SerializableAffine<SerializableFp> =
            DeserializationConfig::new(1 << 20, &ListSizeConstraint::exact_size(6))
                .deserialize_from(buffer.as_slice())
                .unwrap();
        assert_eq!(back, form);
    }

    // A decoded compressed form still decompresses to the original point.
    let mut buffer: Vec<u8> = vec![];
    SerializationConfig::new(1 << 20)
        .serialize_into(SerializableAffine::compressed(p.clone()), &mut buffer)
        .unwrap();
    let back: SerializableAffine<SerializableFp> =
        DeserializationConfig::new(1 << 20, &ListSizeConstraint::exact_size(6))
            .deserialize_from(buffer.as_slice())
            .unwrap();
    assert_eq!(AffinePoint::try_from(back).unwrap(), p);
}
