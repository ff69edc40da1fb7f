use std::str::FromStr;

use iota_logic::address_seed::{AddressSeed, AddressSeedParseError};
use num_bigint::BigUint;

#[test]
fn unpadded_slice() {
    let seed = AddressSeed([0; 32]);
    let zero: [u8; 1] = [0];
    assert_eq!(seed.unpadded(), zero.as_slice());

    let mut seed = AddressSeed([1; 32]);
    seed.0[0] = 0;
    assert_eq!(seed.unpadded(), [1; 31].as_slice());
}

#[test]
fn unpadded_keeps_inner_zeros() {
    let mut bytes = [0u8; 32];
    bytes[29] = 7;
    bytes[31] = 9;
    let seed = AddressSeed(bytes);
    assert_eq!(seed.unpadded(), [7u8, 0, 9].as_slice());
    assert_eq!(seed.padded(), bytes.as_slice());
}

#[test]
fn parses_small_decimal() {
    let seed = AddressSeed::from_str("258").unwrap();
    let mut expected = [0u8; 32];
    expected[30] = 1;
    expected[31] = 2;
    assert_eq!(seed.0, expected);
    assert_eq!(seed.unpadded(), [1u8, 2].as_slice());
    assert_eq!(seed.to_display_string(), "258");
}

#[test]
fn zero_round_trips() {
    let seed = AddressSeed::from_str("0").unwrap();
    assert_eq!(seed.0, [0u8; 32]);
    assert_eq!(seed.to_display_string(), "0");
}

#[test]
fn valid_address_seeds_round_trip() {
    let samples: Vec<Vec<u8>> = vec![
        vec![1],
        vec![255, 0, 17],
        vec![0x80; 16],
        vec![0xff; 32],
        (1..=32).collect(),
    ];
    for bytes in samples {
        let radix10 = BigUint::from_bytes_be(&bytes).to_str_radix(10);
        let seed = AddressSeed::from_str(&radix10).unwrap();
        assert_eq!(radix10, seed.to_display_string());
        let unpadded = seed.unpadded();
        let first_nonzero = bytes.iter().position(|b| *b != 0).unwrap();
        assert_eq!(unpadded, &bytes[first_nonzero..]);
    }
}

#[test]
fn large_inputs_are_refused() {
    let samples: Vec<Vec<u8>> = vec![vec![1; 33], vec![0xab; 64], vec![7; 1023]];
    for bytes in samples {
        let radix10 = BigUint::from_bytes_be(&bytes).to_str_radix(10);
        assert!(matches!(
            AddressSeed::from_str(&radix10),
            Err(AddressSeedParseError::TooBig)
        ));
    }
}

#[test]
fn non_numbers_are_refused() {
    assert!(matches!(
        AddressSeed::from_str("12a4"),
        Err(AddressSeedParseError::Parse(_))
    ));
    assert!(matches!(
        AddressSeed::from_str(""),
        Err(AddressSeedParseError::Parse(_))
    ));
}

#[test]
fn seeds_from_bytes_with_leading_zeros_round_trip() {
    let bytes = vec![0u8, 0, 5, 6];
    let radix10 = BigUint::from_bytes_be(&bytes).to_str_radix(10);
    let seed = AddressSeed::from_str(&radix10).unwrap();
    assert_eq!(seed.to_display_string(), radix10);
    let mut padded = [0u8; 32];
    padded[30] = 5;
    padded[31] = 6;
    assert_eq!(seed.padded(), &padded[..]);
    assert_eq!(seed.unpadded(), &[5u8, 6][..]);
}

#[test]
fn decimal_text_of_bytes_with_leading_zeros_round_trips() {
    let bytes = [0u8, 0, 1, 0];
    let s = iota_logic::address_seed::decimal_of_bytes(&bytes);
    assert_eq!(s, "256");
    let seed = iota_logic::address_seed::AddressSeed::from_decimal_str(&s).unwrap();
    let mut expected = [0u8; 32];
    expected[30] = 1;
    assert_eq!(seed.padded(), &expected[..]);
    assert_eq!(seed.unpadded(), &[1u8, 0][..]);
    assert_eq!(seed.to_display_string(), s);
    assert_eq!(iota_logic::address_seed::decimal_of_bytes(&[0u8, 0]), "0");
}
