//! Key files hold a key pair as Base64 of `flag || private key`, where the
//! flag byte names the signature scheme. Network key pairs are Ed25519.
use vstd::prelude::*;
use fastcrypto::bls12381::min_sig::BLS12381KeyPair;
use fastcrypto::ed25519::Ed25519KeyPair;
use fastcrypto::encoding::{Base64, Encoding};
use fastcrypto::secp256k1::Secp256k1KeyPair;
use fastcrypto::secp256r1::Secp256r1KeyPair;
use fastcrypto::traits::ToFromBytes;

use crate::keytool::{base64_encode, encode_base64};

verus! {

/// Flag byte of the Ed25519 scheme.
pub const ED25519_FLAG: u8 = 0;

/// Flag byte of the ECDSA secp256k1 scheme.
pub const SECP256K1_FLAG: u8 = 1;

/// Flag byte of the ECDSA secp256r1 scheme.
pub const SECP256R1_FLAG: u8 = 2;

#[verifier::external_type_specification]
#[verifier::external_body]
pub struct ExEd25519KeyPair(Ed25519KeyPair);

/// Why a key file was refused.
#[derive(Clone, Copy, Debug, PartialEq, Eq)]
pub enum KeypairFileError {
    /// The contents are not Base64 of a flag and a valid private key.
    InvalidInput,
    /// The key pair is valid but not of the Ed25519 scheme.
    InvalidScheme,
}

/// The bytes that a standard, padded Base64 text decodes to, if it is one.
pub uninterp spec fn base64_decode(text: Seq<char>) -> Option<Seq<u8>>;

/// Calls `<Base64 as Encoding>::decode` of fastcrypto (standard alphabet,
/// padded); its result is named by `base64_decode`.
#[verifier::external_body]
pub(crate) fn decode_base64(text: &str) -> (r: Option<Vec<u8>>)
    ensures
        r is Some <==> base64_decode(text@) is Some,
        r matches Some(b) ==> base64_decode(text@) == Some(b@),
{
    Base64::decode(text).ok()
}

#[verifier::external_type_specification]
#[verifier::external_body]
pub struct ExSecp256k1KeyPair(Secp256k1KeyPair);

#[verifier::external_type_specification]
#[verifier::external_body]
pub struct ExSecp256r1KeyPair(Secp256r1KeyPair);

#[verifier::external_type_specification]
#[verifier::external_body]
pub struct ExBls12381KeyPair(BLS12381KeyPair);

/// A key pair, with the private key it was made from.
pub struct KnownKeyPair<K> {
    pair: K,
    private: Ghost<Seq<u8>>,
}

/// A network key pair: Ed25519.
pub type NetworkKeyPair = KnownKeyPair<Ed25519KeyPair>;

/// An authority key pair: BLS12-381.
pub type AuthorityKeyPair = KnownKeyPair<BLS12381KeyPair>;

impl<K> KnownKeyPair<K> {
    /// The private key the pair was made from.
    pub closed spec fn spec_private(&self) -> Seq<u8> {
        self.private@
    }

    /// The key pair.
    pub closed spec fn spec_pair(&self) -> K {
        self.pair
    }

    /// The key pair itself.
    pub fn into_key_pair(self) -> (r: K)
        ensures
            r == self.spec_pair(),
    {
        self.pair
    }
}

/// An account key pair, of one of the schemes an account can use.
pub enum IotaKeyPair {
    Ed25519(KnownKeyPair<Ed25519KeyPair>),
    Secp256k1(KnownKeyPair<Secp256k1KeyPair>),
    Secp256r1(KnownKeyPair<Secp256r1KeyPair>),
}

/// Calls `Ed25519KeyPair::from_bytes` of fastcrypto, which accepts exactly
/// 32 bytes (any 32 bytes are an Ed25519 private key) and gives the key
/// pair whose private key they are; that private key is recorded with it.
#[verifier::external_body]
fn ed25519_keypair_from_bytes(bytes: &[u8]) -> (r: Option<NetworkKeyPair>)
    ensures
        r is Some <==> bytes@.len() == 32,
        r matches Some(kp) ==> kp.spec_private() == bytes@,
{
    match Ed25519KeyPair::from_bytes(bytes) {
        Ok(pair) => Some(KnownKeyPair { pair, private: Ghost(bytes@) }),
        Err(_) => None,
    }
}

/// The number with these big-endian bytes.
pub open spec fn be_nat(bytes: Seq<u8>) -> nat
    decreases bytes.len(),
{
    if bytes.len() == 0 {
        0
    } else {
        (be_nat(bytes.drop_last()) * 256 + bytes.last()) as nat
    }
}

/// The bytes are a scalar of a group of order `order`, as a private key is
/// written: 32 bytes, read big-endian, above zero and below the order.
pub open spec fn private_scalar_valid(bytes: Seq<u8>, order: nat) -> bool {
    bytes.len() == 32 && 0 < be_nat(bytes) < order
}

/// The order of the secp256k1 group.
pub open spec fn secp256k1_order() -> nat {
    0xFFFFFFFFFFFFFFFFFFFFFFFFFFFFFFFEBAAEDCE6AF48A03BBFD25E8CD0364141nat
}

/// The order of the secp256r1 (P-256) group.
pub open spec fn secp256r1_order() -> nat {
    0xFFFFFFFF00000000FFFFFFFFFFFFFFFFBCE6FAADA7179E84F3B9CAC2FC632551nat
}

/// The order of the BLS12-381 scalar group.
pub open spec fn bls12381_order() -> nat {
    0x73EDA753299D7D483339D80809A1D80553BDA402FFFE5BFEFFFFFFFF00000001nat
}

/// The bytes are a valid secp256k1 private key.
pub open spec fn secp256k1_private_key_valid(bytes: Seq<u8>) -> bool {
    private_scalar_valid(bytes, secp256k1_order())
}

/// Calls `Secp256k1KeyPair::from_bytes` of fastcrypto, which hands the bytes
/// to libsecp256k1 (`SecretKey::from_slice`): it accepts exactly 32 bytes
/// whose big-endian value is above zero and below the group order, and
/// gives the pair whose private key they are; that private key is recorded
/// with it.
#[verifier::external_body]
pub(crate) fn secp256k1_keypair_from_bytes(bytes: &[u8]) -> (r: Option<
    KnownKeyPair<Secp256k1KeyPair>,
>)
    ensures
        r is Some <==> secp256k1_private_key_valid(bytes@),
        r matches Some(kp) ==> kp.spec_private() == bytes@,
{
    match Secp256k1KeyPair::from_bytes(bytes) {
        Ok(pair) => Some(KnownKeyPair { pair, private: Ghost(bytes@) }),
        Err(_) => None,
    }
}

/// The bytes are a valid secp256r1 private key.
pub open spec fn secp256r1_private_key_valid(bytes: Seq<u8>) -> bool {
    private_scalar_valid(bytes, secp256r1_order())
}

/// Calls `Secp256r1KeyPair::from_bytes` of fastcrypto, which takes the bytes
/// as a p256 signing key and then as a 32-byte array: it accepts exactly 32
/// bytes whose big-endian value is above zero and below the group order, and
/// gives the pair whose private key they are; that private key is recorded
/// with it.
#[verifier::external_body]
pub(crate) fn secp256r1_keypair_from_bytes(bytes: &[u8]) -> (r: Option<
    KnownKeyPair<Secp256r1KeyPair>,
>)
    ensures
        r is Some <==> secp256r1_private_key_valid(bytes@),
        r matches Some(kp) ==> kp.spec_private() == bytes@,
{
    match Secp256r1KeyPair::from_bytes(bytes) {
        Ok(pair) => Some(KnownKeyPair { pair, private: Ghost(bytes@) }),
        Err(_) => None,
    }
}

/// The bytes are a valid BLS12-381 private key.
pub open spec fn bls12381_private_key_valid(bytes: Seq<u8>) -> bool {
    private_scalar_valid(bytes, bls12381_order())
}

/// Calls `BLS12381KeyPair::from_bytes` of fastcrypto (min_sig), which hands
/// the bytes to blst (`SecretKey::from_bytes`): it accepts exactly 32 bytes
/// whose big-endian value is above zero and below the group order, and gives
/// the pair whose private key they are; that private key is recorded with
/// it.
#[verifier::external_body]
fn bls12381_keypair_from_bytes(bytes: &[u8]) -> (r: Option<AuthorityKeyPair>)
    ensures
        r is Some <==> bls12381_private_key_valid(bytes@),
        r matches Some(kp) ==> kp.spec_private() == bytes@,
{
    match BLS12381KeyPair::from_bytes(bytes) {
        Ok(pair) => Some(KnownKeyPair { pair, private: Ghost(bytes@) }),
        Err(_) => None,
    }
}

/// What a decoded key file holds.
pub enum KeyKind {
    /// An Ed25519 key pair.
    Ed25519,
    /// A valid key pair of another scheme.
    OtherScheme,
    /// No valid key pair.
    Invalid,
}

/// What the bytes `flag || private key` hold.
pub open spec fn key_kind(bytes: Seq<u8>) -> KeyKind {
    if bytes.len() == 0 {
        KeyKind::Invalid
    } else {
        let key = bytes.drop_first();
        if bytes[0] == ED25519_FLAG {
            if key.len() == 32 {
                KeyKind::Ed25519
            } else {
                KeyKind::Invalid
            }
        } else if bytes[0] == SECP256K1_FLAG {
            if secp256k1_private_key_valid(key) {
                KeyKind::OtherScheme
            } else {
                KeyKind::Invalid
            }
        } else if bytes[0] == SECP256R1_FLAG {
            if secp256r1_private_key_valid(key) {
                KeyKind::OtherScheme
            } else {
                KeyKind::Invalid
            }
        } else {
            KeyKind::Invalid
        }
    }
}

/// What an account key file's decoded bytes `flag || private key` give:
/// the key pair of the scheme the flag names, made from the private key, or
/// `InvalidInput` when the flag is unknown or the key is not valid for it.
pub open spec fn account_keypair_of(bytes: Seq<u8>, r: Result<IotaKeyPair, KeypairFileError>) -> bool {
    let key = bytes.drop_first();
    if bytes.len() > 0 && bytes[0] == ED25519_FLAG && key.len() == 32 {
        r matches Ok(IotaKeyPair::Ed25519(kp)) && kp.spec_private() == key
    } else if bytes.len() > 0 && bytes[0] == SECP256K1_FLAG && secp256k1_private_key_valid(key) {
        r matches Ok(IotaKeyPair::Secp256k1(kp)) && kp.spec_private() == key
    } else if bytes.len() > 0 && bytes[0] == SECP256R1_FLAG && secp256r1_private_key_valid(key) {
        r matches Ok(IotaKeyPair::Secp256r1(kp)) && kp.spec_private() == key
    } else {
        r matches Err(KeypairFileError::InvalidInput)
    }
}

/// What reading an account key file with these (trimmed) contents gives.
pub open spec fn account_key_file_read(contents: Seq<char>, r: Result<IotaKeyPair, KeypairFileError>) -> bool {
    match base64_decode(contents) {
        None => r matches Err(KeypairFileError::InvalidInput),
        Some(bytes) => account_keypair_of(bytes, r),
    }
}

/// The account key pair of a key file's (trimmed) contents: Base64 of
/// `flag || private key`.
pub fn keypair_from_base64(contents: &str) -> (r: Result<IotaKeyPair, KeypairFileError>)
    ensures
        account_key_file_read(contents@, r),
{
    let bytes = match decode_base64(contents) {
        Some(b) => b,
        None => {
            return Err(KeypairFileError::InvalidInput);
        },
    };
    if bytes.len() == 0 {
        return Err(KeypairFileError::InvalidInput);
    }
    let flag = bytes[0];
    let key = vstd::slice::slice_subrange(bytes.as_slice(), 1, bytes.len());
    assert(key@ =~= bytes@.drop_first());
    if flag == ED25519_FLAG {
        match ed25519_keypair_from_bytes(key) {
            Some(kp) => Ok(IotaKeyPair::Ed25519(kp)),
            None => Err(KeypairFileError::InvalidInput),
        }
    } else if flag == SECP256K1_FLAG {
        match secp256k1_keypair_from_bytes(key) {
            Some(kp) => Ok(IotaKeyPair::Secp256k1(kp)),
            None => Err(KeypairFileError::InvalidInput),
        }
    } else if flag == SECP256R1_FLAG {
        match secp256r1_keypair_from_bytes(key) {
            Some(kp) => Ok(IotaKeyPair::Secp256r1(kp)),
            None => Err(KeypairFileError::InvalidInput),
        }
    } else {
        Err(KeypairFileError::InvalidInput)
    }
}

/// The network key pair of a key file's (trimmed) contents: Base64 of
/// `flag || private key`, which must be an Ed25519 key pair.
pub fn network_keypair_from_base64(contents: &str) -> (r: Result<NetworkKeyPair, KeypairFileError>)
    ensures
        match base64_decode(contents@) {
            None => r matches Err(KeypairFileError::InvalidInput),
            Some(bytes) => match key_kind(bytes) {
                KeyKind::Ed25519 => r matches Ok(kp) && kp.spec_private() == bytes.drop_first(),
                KeyKind::OtherScheme => r matches Err(KeypairFileError::InvalidScheme),
                KeyKind::Invalid => r matches Err(KeypairFileError::InvalidInput),
            },
        },
{
    match keypair_from_base64(contents) {
        Ok(IotaKeyPair::Ed25519(kp)) => Ok(kp),
        Ok(_) => Err(KeypairFileError::InvalidScheme),
        Err(e) => Err(e),
    }
}

/// What reading an authority key file with these (trimmed) contents gives.
pub open spec fn authority_key_file_read(contents: Seq<char>, r: Result<AuthorityKeyPair, KeypairFileError>) -> bool {
    match base64_decode(contents) {
        None => r matches Err(KeypairFileError::InvalidInput),
        Some(bytes) => if bls12381_private_key_valid(bytes) {
            r matches Ok(kp) && kp.spec_private() == bytes
        } else {
            r matches Err(KeypairFileError::InvalidInput)
        },
    }
}

/// The authority key pair of a key file's (trimmed) contents: Base64 of the
/// BLS12-381 private key, with no flag.
pub fn authority_keypair_from_base64(contents: &str) -> (r: Result<AuthorityKeyPair, KeypairFileError>)
    ensures
        authority_key_file_read(contents@, r),
{
    let bytes = match decode_base64(contents) {
        Some(b) => b,
        None => {
            return Err(KeypairFileError::InvalidInput);
        },
    };
    match bls12381_keypair_from_bytes(bytes.as_slice()) {
        Some(kp) => Ok(kp),
        None => Err(KeypairFileError::InvalidInput),
    }
}

/// Calls `AsRef<[u8]>::as_ref` on an Ed25519 key pair of fastcrypto, which
/// gives the bytes of its private key: the bytes it was made from.
#[verifier::external_body]
fn ed25519_private_bytes(kp: &KnownKeyPair<Ed25519KeyPair>) -> (r: Vec<u8>)
    ensures
        r@ == kp.spec_private(),
{
    kp.pair.as_ref().to_vec()
}

/// Calls `AsRef<[u8]>::as_ref` on a secp256k1 key pair of fastcrypto, which
/// gives the 32 bytes of its secret key: the bytes it was made from.
#[verifier::external_body]
fn secp256k1_private_bytes(kp: &KnownKeyPair<Secp256k1KeyPair>) -> (r: Vec<u8>)
    ensures
        r@ == kp.spec_private(),
{
    kp.pair.as_ref().to_vec()
}

/// Calls `AsRef<[u8]>::as_ref` on a secp256r1 key pair of fastcrypto, which
/// gives the bytes its private key was made from (kept with it).
#[verifier::external_body]
fn secp256r1_private_bytes(kp: &KnownKeyPair<Secp256r1KeyPair>) -> (r: Vec<u8>)
    ensures
        r@ == kp.spec_private(),
{
    kp.pair.as_ref().to_vec()
}

/// Calls `AsRef<[u8]>::as_ref` on a BLS12-381 key pair of fastcrypto, which
/// gives the big-endian bytes of its secret scalar: for a scalar below the
/// group order, the bytes it was made from.
#[verifier::external_body]
fn bls12381_private_bytes(kp: &AuthorityKeyPair) -> (r: Vec<u8>)
    ensures
        r@ == kp.spec_private(),
{
    kp.pair.as_ref().to_vec()
}

/// The scheme flag of an account key pair.
pub open spec fn scheme_flag(kp: IotaKeyPair) -> u8 {
    match kp {
        IotaKeyPair::Ed25519(_) => ED25519_FLAG,
        IotaKeyPair::Secp256k1(_) => SECP256K1_FLAG,
        IotaKeyPair::Secp256r1(_) => SECP256R1_FLAG,
    }
}

/// The private key of an account key pair.
pub open spec fn private_key_of(kp: IotaKeyPair) -> Seq<u8> {
    match kp {
        IotaKeyPair::Ed25519(k) => k.spec_private(),
        IotaKeyPair::Secp256k1(k) => k.spec_private(),
        IotaKeyPair::Secp256r1(k) => k.spec_private(),
    }
}

/// The private key of the pair is a valid key of its scheme (as it is for
/// every pair made from bytes).
pub open spec fn account_key_valid(kp: IotaKeyPair) -> bool {
    match kp {
        IotaKeyPair::Ed25519(k) => k.spec_private().len() == 32,
        IotaKeyPair::Secp256k1(k) => secp256k1_private_key_valid(k.spec_private()),
        IotaKeyPair::Secp256r1(k) => secp256r1_private_key_valid(k.spec_private()),
    }
}

/// The bytes an account key file holds: `flag || private key`.
pub open spec fn account_key_file_bytes(kp: IotaKeyPair) -> Seq<u8> {
    seq![scheme_flag(kp)] + private_key_of(kp)
}

/// The contents of an account key file for the pair: Base64 of
/// `flag || private key`.
pub fn keypair_to_base64(kp: &IotaKeyPair) -> (r: String)
    ensures
        r@ == base64_encode(account_key_file_bytes(*kp)),
        base64_decode(r@) == Some(account_key_file_bytes(*kp)),
{
    let (flag, key) = match kp {
        IotaKeyPair::Ed25519(k) => (ED25519_FLAG, ed25519_private_bytes(k)),
        IotaKeyPair::Secp256k1(k) => (SECP256K1_FLAG, secp256k1_private_bytes(k)),
        IotaKeyPair::Secp256r1(k) => (SECP256R1_FLAG, secp256r1_private_bytes(k)),
    };
    let mut bytes: Vec<u8> = Vec::new();
    bytes.push(flag);
    let mut i: usize = 0;
    while i < key.len()
        invariant
            i <= key@.len(),
            bytes@ == seq![flag] + key@.take(i as int),
        decreases key@.len() - i,
    {
        bytes.push(key[i]);
        i = i + 1;
        assert(bytes@ =~= seq![flag] + key@.take(i as int));
    }
    assert(key@.take(key@.len() as int) =~= key@);
    assert(bytes@ =~= account_key_file_bytes(*kp));
    encode_base64(bytes.as_slice())
}

/// The contents of an authority key file for the pair: Base64 of the private
/// key, with no flag.
pub fn authority_keypair_to_base64(kp: &AuthorityKeyPair) -> (r: String)
    ensures
        r@ == base64_encode(kp.spec_private()),
        base64_decode(r@) == Some(kp.spec_private()),
{
    let key = bls12381_private_bytes(kp);
    encode_base64(key.as_slice())
}

/// Reading an account key file gives back the pair that was written to it:
/// the same scheme and the same private key.
pub proof fn lemma_account_key_file_round_trip(
    kp: IotaKeyPair,
    contents: Seq<char>,
    r: Result<IotaKeyPair, KeypairFileError>,
)
    requires
        account_key_valid(kp),
        base64_decode(contents) == Some(account_key_file_bytes(kp)),
        account_key_file_read(contents, r),
    ensures
        r matches Ok(back) && scheme_flag(back) == scheme_flag(kp) && private_key_of(back)
            == private_key_of(kp),
{
    let bytes = account_key_file_bytes(kp);
    assert(bytes.drop_first() =~= private_key_of(kp));
}

/// Reading an authority key file gives back the private key that was
/// written to it.
pub proof fn lemma_authority_key_file_round_trip(
    kp: AuthorityKeyPair,
    contents: Seq<char>,
    r: Result<AuthorityKeyPair, KeypairFileError>,
)
    requires
        bls12381_private_key_valid(kp.spec_private()),
        base64_decode(contents) == Some(kp.spec_private()),
        authority_key_file_read(contents, r),
    ensures
        r matches Ok(back) && back.spec_private() == kp.spec_private(),
{
}

} // verus!
