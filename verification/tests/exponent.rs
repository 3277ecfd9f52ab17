//! Tests for decoding and validating the RSA public exponent.

use rsa_exponent::error::RejectionKind;
use rsa_exponent::exponent::Exponent;

fn decode(bytes: &[u8], min_value: Exponent) -> Result<Exponent, RejectionKind> {
    Exponent::from_be_bytes(untrusted::Input::from(bytes), min_value)
}

#[test]
fn test_public_exponent_debug() {
    let exponent =
        Exponent::from_be_bytes(untrusted::Input::from(&[0x1, 0x00, 0x01]), Exponent::f4())
            .unwrap();
    assert_eq!("Exponent(65537)", format!("{:?}", exponent));
}

#[test]
fn test_public_exponent_constants() {
    for value in [Exponent::three(), Exponent::f4(), Exponent::max()].iter() {
        let value: u64 = value.value();
        assert_eq!(value & 1, 1);
        assert!(value >= Exponent::three().value()); // The absolute minimum.
        assert!(value <= Exponent::max().value());
    }
}

#[test]
fn test_constant_values() {
    assert_eq!(Exponent::three().value(), 3);
    assert_eq!(Exponent::f4().value(), 65537);
    assert_eq!(Exponent::max().value(), (1u64 << 33) - 1);
}

#[test]
fn test_decode_f4() {
    let e = decode(&[0x01, 0x00, 0x01], Exponent::f4()).unwrap();
    assert_eq!(e.value(), 65537);
}

#[test]
fn test_decode_leading_zero() {
    assert_eq!(decode(&[0x00, 0x01, 0x00, 0x01], Exponent::three()).unwrap_err(), RejectionKind::InvalidEncoding);
    assert_eq!(decode(&[0x00], Exponent::three()).unwrap_err(), RejectionKind::InvalidEncoding);
}

#[test]
fn test_decode_empty() {
    assert_eq!(decode(&[], Exponent::three()).unwrap_err(), RejectionKind::InvalidEncoding);
}

#[test]
fn test_decode_three() {
    let e = decode(&[0x03], Exponent::three()).unwrap();
    assert_eq!(e.value(), 3);
}

#[test]
fn test_decode_below_floor_of_three() {
    // 2 is below the absolute floor 3, and the floor check comes before the
    // parity check, so the rejection is classified as too small.
    assert_eq!(decode(&[0x02], Exponent::three()).unwrap_err(), RejectionKind::TooSmall);
}

#[test]
fn test_decode_even() {
    assert_eq!(decode(&[0x04], Exponent::three()).unwrap_err(), RejectionKind::InvalidComponent);
    // 65538 = 0x010002, even and above the floor.
    assert_eq!(decode(&[0x01, 0x00, 0x02], Exponent::three()).unwrap_err(), RejectionKind::InvalidComponent);
}

#[test]
fn test_decode_six_bytes() {
    assert_eq!(decode(&[0x01, 0x01, 0x01, 0x01, 0x01, 0x01], Exponent::three()).unwrap_err(), RejectionKind::TooLarge);
    // Length is checked before anything else, so even a leading zero in an
    // overlong input reports too large.
    assert_eq!(decode(&[0x00, 0x00, 0x00, 0x00, 0x00, 0x00], Exponent::three()).unwrap_err(), RejectionKind::TooLarge);
}

#[test]
fn test_decode_too_small() {
    assert_eq!(decode(&[0x01], Exponent::f4()).unwrap_err(), RejectionKind::TooSmall);
}

#[test]
fn test_decode_max_boundary() {
    // 2^33 - 1, the largest accepted value, as five bytes.
    let e = decode(&[0x01, 0xFF, 0xFF, 0xFF, 0xFF], Exponent::three()).unwrap();
    assert_eq!(e.value(), (1u64 << 33) - 1);
    // 2^33 is even, and parity is checked before the ceiling.
    assert_eq!(decode(&[0x02, 0x00, 0x00, 0x00, 0x00], Exponent::three()).unwrap_err(), RejectionKind::InvalidComponent);
    // 2^33 + 1 is odd and above the ceiling.
    assert_eq!(decode(&[0x02, 0x00, 0x00, 0x00, 0x01], Exponent::three()).unwrap_err(), RejectionKind::TooLarge);
}

#[test]
fn test_decode_monotonic_floors() {
    let strict = decode(&[0x01, 0x00, 0x01], Exponent::f4()).unwrap();
    let permissive = decode(&[0x01, 0x00, 0x01], Exponent::three()).unwrap();
    assert_eq!(strict.value(), permissive.value());
}

#[test]
fn test_round_trip() {
    for bytes in [
        &[0x03][..],
        &[0x05][..],
        &[0x01, 0x00, 0x01][..],
        &[0x01, 0x03][..],
        &[0x01, 0xFF, 0xFF, 0xFF, 0xFF][..],
    ]
    .iter()
    {
        let e = decode(bytes, Exponent::three()).unwrap();
        assert_eq!(e.to_be_bytes().as_slice(), *bytes);
    }
}

#[test]
fn test_to_be_bytes_of_constants() {
    assert_eq!(Exponent::three().to_be_bytes(), vec![0x03]);
    assert_eq!(Exponent::f4().to_be_bytes(), vec![0x01, 0x00, 0x01]);
    assert_eq!(Exponent::max().to_be_bytes(), vec![0x01, 0xFF, 0xFF, 0xFF, 0xFF]);
}

#[test]
fn test_decode_two_bytes_exact_value() {
    // 0x0103 = 259.
    let e = decode(&[0x01, 0x03], Exponent::three()).unwrap();
    assert_eq!(e.value(), 259);
}
