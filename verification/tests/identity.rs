use aktags_cloud::identity::{Identity, IdentityError, KEYPAIR_LENGTH};

fn from_hex(s: &str) -> Vec<u8> {
    hex::decode(s).unwrap()
}

#[test]
fn key_file_of_wrong_length_is_refused() {
    assert!(matches!(Identity::from_keypair_bytes(&[0u8; 63]), Err(IdentityError::InvalidKeyFile)));
    assert!(matches!(Identity::from_keypair_bytes(&[]), Err(IdentityError::InvalidKeyFile)));
    assert!(Identity::from_keypair_bytes(&[0u8; KEYPAIR_LENGTH]).is_ok());
}

#[test]
fn rfc8032_test_vector_one() {
    let secret = from_hex("9d61b19deffd5a60ba844af492ec2cc44449c5697b326919703bac031cae7f60");
    let mut file = secret.clone();
    file.extend_from_slice(&[7u8; 32]);
    let id = Identity::from_keypair_bytes(&file).unwrap();
    assert_eq!(id.signing_key().to_vec(), secret);
    assert_eq!(id.node_id(), "d75a980182b10ab7d54bfed3c964073a0ee172f3daa62325af021a68f707511a");
    let sig = id.sign(b"");
    assert_eq!(
        hex::encode(sig),
        "e5564300c360ac729086e2cc806e828a84877f1eb8e5d974d873e065224901555fb8821590a33bacc61e39701cf9b46bd25bf5f0595bbe24655141438e7a100b"
    );
    assert!(id.verify(b"", &sig));
}

#[test]
fn sign_then_verify_and_tamper() {
    let bytes = Identity::new_keypair_bytes().unwrap();
    let id = Identity::from_keypair_bytes(&bytes).unwrap();
    let sig = id.sign(b"message");
    assert!(id.verify(b"message", &sig));
    assert!(!id.verify(b"messagE", &sig));
    let mut bad = sig;
    bad[0] ^= 1;
    assert!(!id.verify(b"message", &bad));
    assert_eq!(id.node_id().len(), 64);
}

#[test]
fn fresh_key_bytes_differ() {
    let a = Identity::new_keypair_bytes().unwrap();
    let b = Identity::new_keypair_bytes().unwrap();
    assert_ne!(a, b);
}
