//! A node's signing identity: an Ed25519 key pair (through
//! `ed25519-dalek`), kept as the raw key bytes.
use vstd::prelude::*;
use crate::digest::{hex_lower, to_hex};
use crate::ids::random_bytes;

verus! {

/// Length of a key file: the 32-byte secret key followed by 32 more bytes.
pub const KEYPAIR_LENGTH: usize = 64usize;

/// Length of an Ed25519 secret key.
pub const SECRET_KEY_LENGTH: usize = 32usize;

/// Length of an Ed25519 signature.
pub const SIGNATURE_LENGTH: usize = 64usize;

/// Name for the public key that `SigningKey::verifying_key` derives from a
/// 32-byte secret key (as its compressed encoding).
pub uninterp spec fn ed25519_public_key(secret: Seq<u8>) -> Seq<u8>;

/// Name for the signature that `SigningKey::sign` makes over `message`
/// (Ed25519 signing is deterministic).
pub uninterp spec fn ed25519_signature(secret: Seq<u8>, message: Seq<u8>) -> Seq<u8>;

/// Name for whether `VerifyingKey::verify` accepts `signature` over
/// `message` for the encoded public key `public`.
pub uninterp spec fn ed25519_accepts(public: Seq<u8>, message: Seq<u8>, signature: Seq<u8>) -> bool;

/// Calls `SigningKey::from_bytes(secret).verifying_key().to_bytes()`.
#[verifier::external_body]
fn derive_public_key(secret: &[u8; 32]) -> (r: [u8; 32])
    ensures
        r@ == ed25519_public_key(secret@),
{
    ed25519_dalek::SigningKey::from_bytes(secret).verifying_key().to_bytes()
}

/// Calls `SigningKey::sign` (trait `Signer`) with the key made from
/// `secret`, and returns the signature's bytes.
#[verifier::external_body]
fn sign_message(secret: &[u8; 32], message: &[u8]) -> (r: [u8; 64])
    ensures
        r@ == ed25519_signature(secret@, message@),
{
    ed25519_dalek::Signer::sign(&ed25519_dalek::SigningKey::from_bytes(secret), message).to_bytes()
}

/// Calls `VerifyingKey::from_bytes(public)` and, when the key decodes,
/// `VerifyingKey::verify` (trait `Verifier`) on the signature made with
/// `Signature::from_bytes`; a key that does not decode gives `false`.  The
/// contract names the answer and states the correctness of Ed25519 that the
/// crate documents: a signature made with a secret key verifies under the
/// public key derived from that secret key.
#[verifier::external_body]
fn verify_signature(public: &[u8; 32], message: &[u8], signature: &[u8; 64]) -> (r: bool)
    ensures
        r == ed25519_accepts(public@, message@, signature@),
        forall|secret: Seq<u8>|
            secret.len() == 32 && public@ == ed25519_public_key(secret) && signature@
                == ed25519_signature(secret, message@) ==> r,
{
    match ed25519_dalek::VerifyingKey::from_bytes(public) {
        Ok(key) => ed25519_dalek::Verifier::verify(
            &key,
            message,
            &ed25519_dalek::Signature::from_bytes(signature),
        ).is_ok(),
        Err(_) => false,
    }
}

/// Why an identity could not be made.
#[derive(Debug)]
pub enum IdentityError {
    /// A key file must hold exactly `KEYPAIR_LENGTH` bytes.
    InvalidKeyFile,
    /// The operating system's random source failed.
    Random(rand::Error),
}

/// A node's key pair.  The public key is always the one derived from the
/// secret key: the fields are private and every constructor keeps that.
pub struct Identity {
    signing_key: [u8; 32],
    verifying_key: [u8; 32],
}

impl Identity {
    #[verifier::type_invariant]
    spec fn keys_match(self) -> bool {
        self.verifying_key@ == ed25519_public_key(self.signing_key@)
    }

    /// The 32-byte secret key.
    pub closed spec fn secret_bytes(self) -> Seq<u8> {
        self.signing_key@
    }

    /// The 32-byte encoded public key.
    pub closed spec fn public_bytes(self) -> Seq<u8> {
        self.verifying_key@
    }

    /// The secret key.
    pub fn signing_key(&self) -> (r: [u8; 32])
        ensures
            r@ == self.secret_bytes(),
    {
        self.signing_key
    }

    /// The public key, which is derived from the secret key.
    pub fn verifying_key(&self) -> (r: [u8; 32])
        ensures
            r@ == self.public_bytes(),
            r@ == ed25519_public_key(self.secret_bytes()),
    {
        proof {
            use_type_invariant(self);
        }
        self.verifying_key
    }

    /// The identity stored in a key file: its first 32 bytes are the secret
    /// key.  A file of any other length than 64 bytes is refused.
    pub fn from_keypair_bytes(data: &[u8]) -> (r: Result<Identity, IdentityError>)
        ensures
            match r {
                Ok(id) => loaded_from(data@, id),
                Err(e) => data@.len() != KEYPAIR_LENGTH && e is InvalidKeyFile,
            },
    {
        if data.len() != KEYPAIR_LENGTH {
            return Err(IdentityError::InvalidKeyFile);
        }
        let mut secret = [0u8; 32];
        let mut i: usize = 0;
        while i < 32
            invariant
                data@.len() == 64,
                i <= 32,
                forall|j: int| 0 <= j < i ==> secret@[j] == data@[j],
            decreases 32 - i,
        {
            secret[i] = data[i];
            i = i + 1;
        }
        assert(secret@ =~= data@.take(32));
        let public = derive_public_key(&secret);
        Ok(Identity { signing_key: secret, verifying_key: public })
    }

    /// Fresh random bytes for a new key file.
    pub fn new_keypair_bytes() -> (r: Result<[u8; 64], IdentityError>)
        ensures
            r matches Err(e) ==> e is Random,
    {
        match random_bytes(KEYPAIR_LENGTH) {
            Ok(v) => {
                let mut bytes = [0u8; 64];
                let mut i: usize = 0;
                while i < 64
                    invariant
                        v@.len() == 64,
                        i <= 64,
                    decreases 64 - i,
                {
                    bytes[i] = v[i];
                    i = i + 1;
                }
                Ok(bytes)
            },
            Err(e) => Err(IdentityError::Random(e)),
        }
    }

    /// The node id: the public key as 64 lowercase hex digits.
    pub fn node_id(&self) -> (r: String)
        ensures
            r@ == hex_lower(self.public_bytes()),
            r@ == hex_lower(ed25519_public_key(self.secret_bytes())),
    {
        proof {
            use_type_invariant(self);
        }
        to_hex(self.verifying_key.as_slice())
    }

    /// Signs `message` with the secret key.
    pub fn sign(&self, message: &[u8]) -> (r: [u8; 64])
        ensures
            r@ == ed25519_signature(self.secret_bytes(), message@),
    {
        sign_message(&self.signing_key, message)
    }

    /// Whether `signature` is a valid signature of `message` under this
    /// identity's public key.
    pub fn verify(&self, message: &[u8], signature: &[u8; 64]) -> (r: bool)
        ensures
            verify_outcome(*self, message@, signature@, r),
    {
        proof {
            use_type_invariant(self);
        }
        verify_signature(&self.verifying_key, message, signature)
    }
}

/// What `Identity::verify` answers for `message` and `signature`: whether
/// Ed25519 accepts them under the public key, which it always does for the
/// signature that the identity's own secret key makes.
pub open spec fn verify_outcome(id: Identity, message: Seq<u8>, signature: Seq<u8>, r: bool) -> bool {
    &&& r == ed25519_accepts(id.public_bytes(), message, signature)
    &&& (signature == ed25519_signature(id.secret_bytes(), message) ==> r)
}

/// What an identity signs, it verifies: the signature `sign` makes over a
/// message is accepted by `verify` on the same identity.
pub proof fn lemma_sign_then_verify(id: Identity, message: Seq<u8>, signature: Seq<u8>, accepted: bool)
    requires
        signature == ed25519_signature(id.secret_bytes(), message),
        verify_outcome(id, message, signature, accepted),
    ensures
        accepted,
{
}

/// What `Identity::from_keypair_bytes` makes of a key file.
pub open spec fn loaded_from(data: Seq<u8>, id: Identity) -> bool {
    &&& data.len() == KEYPAIR_LENGTH
    &&& id.secret_bytes() == data.take(32)
    &&& id.public_bytes() == ed25519_public_key(data.take(32))
}

/// A key file fixes the identity: loading the same bytes twice gives the
/// same keys, hence the same node id and the same signatures.
pub proof fn lemma_key_file_determines_identity(data: Seq<u8>, a: Identity, b: Identity)
    requires
        loaded_from(data, a),
        loaded_from(data, b),
    ensures
        a.secret_bytes() == b.secret_bytes(),
        a.public_bytes() == b.public_bytes(),
        hex_lower(a.public_bytes()) == hex_lower(b.public_bytes()),
        forall|m: Seq<u8>|
            ed25519_signature(a.secret_bytes(), m) == ed25519_signature(b.secret_bytes(), m),
{
}

} // verus!
