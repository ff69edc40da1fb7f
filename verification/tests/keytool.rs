use fastcrypto::encoding::{Base64, Bech32, Encoding, Hex};
use iota_logic::keytool::{
    convert_private_key_to_bech32, import_input_is_hex, ConvertError, IOTA_PRIV_KEY_PREFIX,
};

fn flagged(flag: u8, key: &[u8]) -> Vec<u8> {
    let mut v = vec![flag];
    v.extend_from_slice(key);
    v
}

#[test]
fn legacy_hex_key_is_ed25519() {
    let key = [0x3cu8; 32];
    let out = convert_private_key_to_bech32(Hex::encode(key)).unwrap();
    assert_eq!(out.scheme, "ED25519");
    assert_eq!(out.hex_without_flag, "3c".repeat(32));
    assert_eq!(out.base64_with_flag, Base64::encode(flagged(0, &key)));
    assert_eq!(
        out.bech32_with_flag,
        Bech32::encode(flagged(0, &key), IOTA_PRIV_KEY_PREFIX).unwrap()
    );
    assert!(out.bech32_with_flag.starts_with("iotaprivkey1"));
    let with_prefix = convert_private_key_to_bech32(format!("0x{}", Hex::encode(key))).unwrap();
    assert_eq!(with_prefix, out);
}

#[test]
fn bech32_output_converts_to_the_same_output() {
    let key = [0x01u8; 32];
    let out = convert_private_key_to_bech32(Base64::encode(flagged(1, &key))).unwrap();
    assert_eq!(out.scheme, "Secp256k1");
    let again = convert_private_key_to_bech32(out.bech32_with_flag.clone()).unwrap();
    assert_eq!(again, out);
}

#[test]
fn base64_without_flag_is_ed25519() {
    let key = [0xfeu8; 32];
    let out = convert_private_key_to_bech32(Base64::encode(key)).unwrap();
    assert_eq!(out.scheme, "ED25519");
    assert_eq!(out.hex_without_flag, "fe".repeat(32));
}

#[test]
fn secp256r1_key_with_flag() {
    let key = [0x02u8; 32];
    let out = convert_private_key_to_bech32(Base64::encode(flagged(2, &key))).unwrap();
    assert_eq!(out.scheme, "Secp256r1");
    assert_eq!(out.base64_with_flag, Base64::encode(flagged(2, &key)));
}

#[test]
fn hex_of_wrong_length_is_refused() {
    assert_eq!(
        convert_private_key_to_bech32("abcd".to_string()),
        Err(ConvertError::InvalidPrivateKeyLength(2))
    );
}

#[test]
fn unknown_encoding_is_refused() {
    assert_eq!(
        convert_private_key_to_bech32("not a key!".to_string()),
        Err(ConvertError::InvalidEncoding)
    );
}

#[test]
fn hex_input_for_import_is_recognised() {
    assert!(import_input_is_hex("abcd"));
    assert!(import_input_is_hex("0x00ff"));
    assert!(!import_input_is_hex("abc"));
    assert!(!import_input_is_hex("iotaprivkey1qq"));
    assert!(!import_input_is_hex("word word word"));
}
