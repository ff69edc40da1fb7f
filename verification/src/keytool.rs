//! Converting a private key between the encodings that the key tool accepts:
//! Bech32 of `flag || privkey`, hex of an Ed25519 private key (the legacy
//! wallet format), Base64 of `flag || privkey`, or Base64 of an Ed25519
//! private key.
use vstd::prelude::*;
use fastcrypto::encoding::{Base64, Bech32, Encoding, Hex};

use crate::keypair_file::{
    base64_decode, decode_base64, key_kind, KeyKind, ED25519_FLAG, SECP256K1_FLAG,
};

verus! {

/// The human readable part of Bech32-encoded private keys.
pub const IOTA_PRIV_KEY_PREFIX: &'static str = "iotaprivkey";

/// A private key in every encoding: Bech32 and Base64 of `flag || privkey`,
/// hex of the private key alone, and the name of the signature scheme.
#[derive(Debug, PartialEq, Eq)]
pub struct ConvertOutput {
    pub bech32_with_flag: String,
    pub base64_with_flag: String,
    pub hex_without_flag: String,
    pub scheme: String,
}

/// Why a private key could not be converted.
#[derive(Clone, Copy, Debug, PartialEq, Eq)]
pub enum ConvertError {
    /// Hex that does not hold 32 bytes; the length it holds.
    InvalidPrivateKeyLength(usize),
    /// None of the accepted encodings.
    InvalidEncoding,
}

/// The value of a hexadecimal digit, of either case.
pub open spec fn hex_digit_value(c: char) -> Option<u8> {
    if '0' <= c <= '9' {
        Some((c as u32 - '0' as u32) as u8)
    } else if 'a' <= c <= 'f' {
        Some((c as u32 - 'a' as u32 + 10) as u8)
    } else if 'A' <= c <= 'F' {
        Some((c as u32 - 'A' as u32 + 10) as u8)
    } else {
        None
    }
}

/// The bytes that a hex text denotes, with or without a `0x` prefix: two
/// digits per byte, the high one first.
pub open spec fn hex_decoded(s: Seq<char>) -> Option<Seq<u8>> {
    let t = if s.len() >= 2 && s[0] == '0' && s[1] == 'x' {
        s.skip(2)
    } else {
        s
    };
    if t.len() % 2 == 0 && forall|i: int| 0 <= i < t.len() ==> (#[trigger] hex_digit_value(t[i])) is Some {
        Some(
            Seq::new(
                (t.len() / 2) as nat,
                |i: int|
                    (16 * hex_digit_value(t[2 * i])->0 + hex_digit_value(t[2 * i + 1])->0) as u8,
            ),
        )
    } else {
        None
    }
}

/// The lower-case hexadecimal digit of a value below 16.
pub open spec fn lower_hex_digit(v: int) -> char {
    if v < 10 {
        (v + '0' as int) as char
    } else {
        (v - 10 + 'a' as int) as char
    }
}

/// The lower-case hex text of some bytes, two digits per byte.
pub open spec fn hex_encoded(b: Seq<u8>) -> Seq<char> {
    Seq::new(
        2 * b.len(),
        |i: int|
            if i % 2 == 0 {
                lower_hex_digit((b[i / 2] / 16) as int)
            } else {
                lower_hex_digit((b[i / 2] % 16) as int)
            },
    )
}

/// Calls `<Hex as Encoding>::decode` of fastcrypto, which drops a `0x`
/// prefix and decodes the rest with `hex::decode`.
#[verifier::external_body]
fn decode_hex(s: &str) -> (r: Option<Vec<u8>>)
    ensures
        r is Some <==> hex_decoded(s@) is Some,
        r matches Some(b) ==> hex_decoded(s@) == Some(b@),
{
    Hex::decode(s).ok()
}

/// Calls `<Hex as Encoding>::encode` of fastcrypto (`hex::encode`).
#[verifier::external_body]
fn encode_hex(data: &[u8]) -> (r: String)
    ensures
        r@ == hex_encoded(data@),
{
    Hex::encode(data)
}

/// The bytes that a Bech32 text with the private key prefix holds, if it is
/// one.
pub uninterp spec fn bech32_private_key_decode(s: Seq<char>) -> Option<Seq<u8>>;

/// The Bech32 text with the private key prefix of some bytes.
pub uninterp spec fn bech32_private_key_encode(data: Seq<u8>) -> Seq<char>;

/// The standard, padded Base64 text of some bytes.
pub uninterp spec fn base64_encode(data: Seq<u8>) -> Seq<char>;

/// Calls `Bech32::decode` of fastcrypto with the private key prefix; its
/// result is named by `bech32_private_key_decode`.
#[verifier::external_body]
fn decode_bech32_private_key(s: &str) -> (r: Option<Vec<u8>>)
    ensures
        r is Some <==> bech32_private_key_decode(s@) is Some,
        r matches Some(b) ==> bech32_private_key_decode(s@) == Some(b@),
{
    Bech32::decode(s, IOTA_PRIV_KEY_PREFIX).ok()
}

/// Calls `Bech32::encode` of fastcrypto with the private key prefix, which
/// is a valid prefix, so that it always succeeds; decoding the text gives
/// the bytes back.
#[verifier::external_body]
fn encode_bech32_private_key(data: &[u8]) -> (r: Option<String>)
    ensures
        r is Some,
        r matches Some(t) ==> t@ == bech32_private_key_encode(data@),
        r matches Some(t) ==> bech32_private_key_decode(t@) == Some(data@),
{
    Bech32::encode(data, IOTA_PRIV_KEY_PREFIX).ok()
}

/// Calls `<Base64 as Encoding>::encode` of fastcrypto; decoding the text
/// gives the bytes back.
#[verifier::external_body]
pub(crate) fn encode_base64(data: &[u8]) -> (r: String)
    ensures
        r@ == base64_encode(data@),
        base64_decode(r@) == Some(data@),
{
    Base64::encode(data)
}

/// `flag || privkey` is a valid key pair of its scheme.
pub open spec fn valid_key_pair(b: Seq<u8>) -> bool {
    !(key_kind(b) is Invalid)
}

/// The key pair, as `flag || privkey`, that the key tool reads from a text;
/// or why it reads none. The encodings are tried in order: Bech32, hex of an
/// Ed25519 key (of 32 bytes, else an error), Base64 with flag, Base64 of an
/// Ed25519 key.
pub open spec fn decoded_key_pair(value: Seq<char>) -> Result<Seq<u8>, ConvertError> {
    if bech32_private_key_decode(value) matches Some(b) && valid_key_pair(b) {
        Ok(bech32_private_key_decode(value)->0)
    } else if hex_decoded(value) is Some {
        let d = hex_decoded(value)->0;
        if d.len() == 32 {
            Ok(seq![ED25519_FLAG] + d)
        } else {
            Err(ConvertError::InvalidPrivateKeyLength(d.len() as usize))
        }
    } else if base64_decode(value) matches Some(b) && valid_key_pair(b) {
        Ok(base64_decode(value)->0)
    } else if base64_decode(value) matches Some(d) && d.len() == 32 {
        Ok(seq![ED25519_FLAG] + base64_decode(value)->0)
    } else {
        Err(ConvertError::InvalidEncoding)
    }
}

/// The name of the signature scheme of a flag.
pub open spec fn scheme_name(flag: u8) -> Seq<char> {
    if flag == ED25519_FLAG {
        "ED25519"@
    } else if flag == SECP256K1_FLAG {
        "Secp256k1"@
    } else {
        "Secp256r1"@
    }
}

/// The conversion of the key pair `flag || privkey`.
pub open spec fn converted(b: Seq<u8>, out: ConvertOutput) -> bool {
    &&& out.bech32_with_flag@ == bech32_private_key_encode(b)
    &&& out.base64_with_flag@ == base64_encode(b)
    &&& out.hex_without_flag@ == hex_encoded(b.drop_first())
    &&& out.scheme@ == scheme_name(b[0])
}

/// Whether `flag || privkey` is a valid key pair of its scheme.
fn is_valid_key_pair(b: &[u8]) -> (r: bool)
    ensures
        r == valid_key_pair(b@),
{
    if b.len() == 0 {
        return false;
    }
    let key = vstd::slice::slice_subrange(b, 1, b.len());
    assert(key@ =~= b@.drop_first());
    if b[0] == ED25519_FLAG {
        key.len() == 32
    } else if b[0] == SECP256K1_FLAG {
        crate::keypair_file::secp256k1_keypair_from_bytes(key).is_some()
    } else if b[0] == crate::keypair_file::SECP256R1_FLAG {
        crate::keypair_file::secp256r1_keypair_from_bytes(key).is_some()
    } else {
        false
    }
}

/// `flag || privkey` for an Ed25519 private key.
fn with_ed25519_flag(key: &[u8]) -> (r: Vec<u8>)
    ensures
        r@ == seq![ED25519_FLAG] + key@,
{
    let mut r: Vec<u8> = Vec::new();
    r.push(ED25519_FLAG);
    let mut i: usize = 0;
    while i < key.len()
        invariant
            i <= key@.len(),
            r@ == seq![ED25519_FLAG] + key@.take(i as int),
        decreases key@.len() - i,
    {
        r.push(key[i]);
        i = i + 1;
        assert(r@ =~= seq![ED25519_FLAG] + key@.take(i as int));
    }
    assert(key@.take(key@.len() as int) =~= key@);
    r
}

/// Reads the key pair, as `flag || privkey`, from a text in one of the
/// accepted encodings.
fn decode_key_pair(value: &str) -> (r: Result<Vec<u8>, ConvertError>)
    ensures
        match r {
            Ok(b) => decoded_key_pair(value@) == Ok::<Seq<u8>, ConvertError>(b@),
            Err(e) => decoded_key_pair(value@) == Err::<Seq<u8>, ConvertError>(e),
        },
{
    if let Some(b) = decode_bech32_private_key(value) {
        if is_valid_key_pair(b.as_slice()) {
            return Ok(b);
        }
    }
    if let Some(d) = decode_hex(value) {
        if d.len() != 32 {
            return Err(ConvertError::InvalidPrivateKeyLength(d.len()));
        }
        return Ok(with_ed25519_flag(d.as_slice()));
    }
    if let Some(b) = decode_base64(value) {
        if is_valid_key_pair(b.as_slice()) {
            return Ok(b);
        }
        if b.len() == 32 {
            return Ok(with_ed25519_flag(b.as_slice()));
        }
    }
    Err(ConvertError::InvalidEncoding)
}

/// Converts a private key given in any accepted encoding into all of them.
/// Converting the Bech32 text of the result again gives the same key pair.
pub fn convert_private_key_to_bech32(value: String) -> (r: Result<ConvertOutput, ConvertError>)
    ensures
        match r {
            Ok(out) => decoded_key_pair(value@) matches Ok(b) && converted(b, out),
            Err(e) => decoded_key_pair(value@) == Err::<Seq<u8>, ConvertError>(e),
        },
        r matches Ok(out) ==> decoded_key_pair(out.bech32_with_flag@) == decoded_key_pair(value@),
{
    let b = decode_key_pair(value.as_str())?;
    proof {
        if b@.len() == 33 && b@[0] == ED25519_FLAG {
            assert(b@.drop_first().len() == 32);
        }
        assert(valid_key_pair(b@));
    }
    let bech32_with_flag = match encode_bech32_private_key(b.as_slice()) {
        Some(t) => t,
        None => {
            return Err(ConvertError::InvalidEncoding);
        },
    };
    let base64_with_flag = encode_base64(b.as_slice());
    let key = vstd::slice::slice_subrange(b.as_slice(), 1, b.len());
    assert(key@ =~= b@.drop_first());
    let hex_without_flag = encode_hex(key);
    let scheme = if b[0] == ED25519_FLAG {
        String::from_str("ED25519")
    } else if b[0] == SECP256K1_FLAG {
        String::from_str("Secp256k1")
    } else {
        String::from_str("Secp256r1")
    };
    Ok(ConvertOutput { bech32_with_flag, base64_with_flag, hex_without_flag, scheme })
}

/// Whether a key given for import reads as hex, which the key store no
/// longer accepts (a hex private key is to be converted to Bech32 first).
pub fn import_input_is_hex(input: &str) -> (r: bool)
    ensures
        r == (hex_decoded(input@) is Some),
{
    decode_hex(input).is_some()
}

} // verus!
