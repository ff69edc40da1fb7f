use fastcrypto::encoding::{Base64, Encoding};
use fastcrypto::traits::{KeyPair, ToFromBytes};
use iota_logic::keypair_file::{
    authority_keypair_from_base64, authority_keypair_to_base64, keypair_from_base64,
    keypair_to_base64, network_keypair_from_base64, IotaKeyPair,
    KeypairFileError,
};

fn encoded(flag: u8, key: &[u8]) -> String {
    let mut bytes = vec![flag];
    bytes.extend_from_slice(key);
    Base64::encode(bytes)
}

#[test]
fn ed25519_key_file_gives_the_network_keypair() {
    let key = [7u8; 32];
    let kp = network_keypair_from_base64(&encoded(0, &key)).unwrap().into_key_pair();
    assert_eq!(kp.as_ref(), &key[..]);
    let expected = fastcrypto::ed25519::Ed25519KeyPair::from_bytes(&key).unwrap();
    assert_eq!(kp.as_ref(), expected.as_ref());
}

#[test]
fn other_schemes_are_refused_as_such() {
    assert_eq!(
        network_keypair_from_base64(&encoded(1, &[1u8; 32])).err(),
        Some(KeypairFileError::InvalidScheme)
    );
    assert_eq!(
        network_keypair_from_base64(&encoded(2, &[1u8; 32])).err(),
        Some(KeypairFileError::InvalidScheme)
    );
}

#[test]
fn malformed_key_files_are_invalid_input() {
    assert_eq!(
        network_keypair_from_base64("not base64!").err(),
        Some(KeypairFileError::InvalidInput)
    );
    assert_eq!(
        network_keypair_from_base64(&encoded(0, &[7u8; 31])).err(),
        Some(KeypairFileError::InvalidInput)
    );
    assert_eq!(
        network_keypair_from_base64(&encoded(1, &[0u8; 32])).err(),
        Some(KeypairFileError::InvalidInput)
    );
    assert_eq!(
        network_keypair_from_base64(&encoded(9, &[7u8; 32])).err(),
        Some(KeypairFileError::InvalidInput)
    );
    assert_eq!(
        network_keypair_from_base64("").err(),
        Some(KeypairFileError::InvalidInput)
    );
}

#[test]
fn account_key_files_give_the_pair_of_their_scheme() {
    let key = [7u8; 32];
    match keypair_from_base64(&encoded(0, &key)) {
        Ok(IotaKeyPair::Ed25519(kp)) => {
            let expected = fastcrypto::ed25519::Ed25519KeyPair::from_bytes(&key).unwrap();
            assert_eq!(kp.into_key_pair().public(), expected.public());
        }
        _ => panic!("expected an Ed25519 key pair"),
    }
    assert!(matches!(keypair_from_base64(&encoded(1, &[1u8; 32])), Ok(IotaKeyPair::Secp256k1(_))));
    assert!(matches!(keypair_from_base64(&encoded(2, &[1u8; 32])), Ok(IotaKeyPair::Secp256r1(_))));
    assert!(matches!(
        keypair_from_base64(&encoded(1, &[0u8; 32])),
        Err(KeypairFileError::InvalidInput)
    ));
    assert!(matches!(
        keypair_from_base64(&encoded(9, &[1u8; 32])),
        Err(KeypairFileError::InvalidInput)
    ));
}

#[test]
fn authority_key_files_hold_a_bls_private_key() {
    let key = [1u8; 32];
    let kp = authority_keypair_from_base64(&Base64::encode(key)).unwrap().into_key_pair();
    let expected = fastcrypto::bls12381::min_sig::BLS12381KeyPair::from_bytes(&key).unwrap();
    assert_eq!(kp.public(), expected.public());
    assert!(matches!(
        authority_keypair_from_base64(&Base64::encode([0xffu8; 32])),
        Err(KeypairFileError::InvalidInput)
    ));
    assert!(matches!(
        authority_keypair_from_base64("***"),
        Err(KeypairFileError::InvalidInput)
    ));
}

fn be_bytes(hex: &str) -> Vec<u8> {
    (0..32).map(|i| u8::from_str_radix(&hex[2 * i..2 * i + 2], 16).unwrap()).collect()
}

#[test]
fn private_scalars_must_lie_below_the_group_order() {
    let k1_order = be_bytes("fffffffffffffffffffffffffffffffebaaedce6af48a03bbfd25e8cd0364141");
    let k1_below = be_bytes("fffffffffffffffffffffffffffffffebaaedce6af48a03bbfd25e8cd0364140");
    assert!(matches!(keypair_from_base64(&encoded(1, &k1_order)), Err(KeypairFileError::InvalidInput)));
    assert!(matches!(keypair_from_base64(&encoded(1, &k1_below)), Ok(IotaKeyPair::Secp256k1(_))));
    let r1_order = be_bytes("ffffffff00000000ffffffffffffffffbce6faada7179e84f3b9cac2fc632551");
    let r1_below = be_bytes("ffffffff00000000ffffffffffffffffbce6faada7179e84f3b9cac2fc632550");
    assert!(matches!(keypair_from_base64(&encoded(2, &r1_order)), Err(KeypairFileError::InvalidInput)));
    assert!(matches!(keypair_from_base64(&encoded(2, &r1_below)), Ok(IotaKeyPair::Secp256r1(_))));
    assert!(matches!(keypair_from_base64(&encoded(2, &[0u8; 32])), Err(KeypairFileError::InvalidInput)));
    let bls_order = be_bytes("73eda753299d7d483339d80809a1d80553bda402fffe5bfeffffffff00000001");
    let bls_below = be_bytes("73eda753299d7d483339d80809a1d80553bda402fffe5bfeffffffff00000000");
    assert!(authority_keypair_from_base64(&Base64::encode(&bls_order)).is_err());
    assert!(authority_keypair_from_base64(&Base64::encode(&bls_below)).is_ok());
    assert!(authority_keypair_from_base64(&Base64::encode([0u8; 32])).is_err());
}

#[test]
fn written_key_files_read_back_to_the_same_pair() {
    for (flag, key) in [(0u8, [7u8; 32]), (1u8, [1u8; 32]), (2u8, [1u8; 32])] {
        let text = encoded(flag, &key);
        let kp = keypair_from_base64(&text).unwrap();
        let written = keypair_to_base64(&kp);
        assert_eq!(written, text);
        let back = keypair_from_base64(&written).unwrap();
        assert_eq!(keypair_to_base64(&back), text);
    }
    let key = [1u8; 32];
    let kp = authority_keypair_from_base64(&Base64::encode(key)).unwrap();
    let written = authority_keypair_to_base64(&kp);
    assert_eq!(written, Base64::encode(key));
    let back = authority_keypair_from_base64(&written).unwrap().into_key_pair();
    let expected = fastcrypto::bls12381::min_sig::BLS12381KeyPair::from_bytes(&key).unwrap();
    assert_eq!(back.public(), expected.public());
}
