//! Kyber1024 key encapsulation and the derivation of per-purpose keys from
//! the shared secret it yields.
//!
//! Keys and ciphertexts are held as plain bytes; the KEM itself is
//! `pqcrypto_kyber`, and key expansion is HKDF-SHA256 from `hkdf`, both
//! reached through the wrappers at the end of this file.

use vstd::prelude::*;

use pqcrypto_kyber::kyber1024;
use pqcrypto_traits::kem::{Ciphertext as _, PublicKey as _, SecretKey as _, SharedSecret as _};

verus! {

/// Bytes in a Kyber1024 public key.
pub const PUBLIC_KEY_BYTES: usize = 1568;

/// Bytes in a Kyber1024 secret key.
pub const SECRET_KEY_BYTES: usize = 3168;

/// Bytes in a Kyber1024 ciphertext.
pub const CIPHERTEXT_BYTES: usize = 1568;

/// Bytes in a Kyber1024 shared secret.
pub const SHARED_SECRET_BYTES: usize = 32;

/// Errors that can occur during Kyber operations.
#[derive(Debug, Clone, Copy, PartialEq, Eq, Structural)]
pub enum KyberError {
    KeyGenerationFailed,
    EncapsulationFailed,
    DecapsulationFailed,
    InvalidPublicKeyLength,
    InvalidCiphertextLength,
    InvalidSecretKeyLength,
}

/// The shared secret that Kyber1024 decapsulation recovers from a
/// ciphertext with a secret key.
pub uninterp spec fn kyber_decapsulated(ciphertext: Seq<u8>, secret_key: Seq<u8>) -> Seq<u8>;

/// Whether `public_key` is the public half of `secret_key`, as Kyber1024
/// key generation pairs them.
pub uninterp spec fn kyber_pair(public_key: Seq<u8>, secret_key: Seq<u8>) -> bool;

/// `shared_secret` is what decapsulating `ciphertext` with any secret key
/// paired with `public_key` recovers.
pub open spec fn encapsulates_to(public_key: Seq<u8>, ciphertext: Seq<u8>, shared_secret: Seq<u8>) -> bool {
    forall|sk: Seq<u8>| kyber_pair(public_key, sk) ==> kyber_decapsulated(ciphertext, sk) == shared_secret
}

/// Key agreement: decapsulating an encapsulation to a public key with its
/// paired secret key yields the encapsulated shared secret.
pub proof fn lemma_decapsulation_recovers_secret(public_key: Seq<u8>, secret_key: Seq<u8>, ciphertext: Seq<u8>, shared_secret: Seq<u8>)
    requires
        kyber_pair(public_key, secret_key),
        encapsulates_to(public_key, ciphertext, shared_secret),
    ensures
        kyber_decapsulated(ciphertext, secret_key) == shared_secret,
{
}

/// The `length` bytes that HKDF-SHA256 (no salt) expands from `secret`
/// with `info`.
pub uninterp spec fn hkdf_sha256(secret: Seq<u8>, info: Seq<u8>, length: nat) -> Seq<u8>;

/// Longest key HKDF-SHA256 can expand: 255 blocks of 32 bytes.
pub const MAX_DERIVED_KEY_LEN: usize = 8160;

/// A peer's public key, checked for length.
pub struct PublicKey {
    bytes: Vec<u8>,
}

impl View for PublicKey {
    type V = Seq<u8>;

    closed spec fn view(&self) -> Seq<u8> {
        self.bytes@
    }
}

impl PublicKey {
    pub closed spec fn wf(&self) -> bool {
        self.bytes@.len() == PUBLIC_KEY_BYTES
    }
}

/// Kyber key exchange handler: one freshly generated key pair.
pub struct KyberKeyExchange {
    public_key: Vec<u8>,
    secret_key: Vec<u8>,
}

impl KyberKeyExchange {
    pub closed spec fn public_key(&self) -> Seq<u8> {
        self.public_key@
    }

    pub closed spec fn secret_key(&self) -> Seq<u8> {
        self.secret_key@
    }

    pub open spec fn wf(&self) -> bool {
        &&& self.public_key().len() == PUBLIC_KEY_BYTES
        &&& self.secret_key().len() == SECRET_KEY_BYTES
        &&& kyber_pair(self.public_key(), self.secret_key())
    }

    /// Generates a new key pair.
    pub fn new() -> (r: Self)
        ensures
            r.wf(),
    {
        let (public_key, secret_key) = kyber_keypair();
        KyberKeyExchange { public_key, secret_key }
    }

    /// The public key bytes, for transmission.
    pub fn public_key_bytes(&self) -> (r: Vec<u8>)
        ensures
            r@ == self.public_key(),
    {
        self.public_key.clone()
    }

    /// A public key received from a peer; refused unless it has the
    /// Kyber1024 length.
    pub fn public_key_from_bytes(bytes: &[u8]) -> (r: Result<PublicKey, KyberError>)
        ensures
            bytes@.len() == PUBLIC_KEY_BYTES ==> (r matches Ok(pk) && pk@ == bytes@ && pk.wf()),
            bytes@.len() != PUBLIC_KEY_BYTES ==> r == Err::<PublicKey, KyberError>(KyberError::InvalidPublicKeyLength),
    {
        if bytes.len() != PUBLIC_KEY_BYTES {
            return Err(KyberError::InvalidPublicKeyLength);
        }
        let mut copy: Vec<u8> = Vec::with_capacity(bytes.len());
        let mut i: usize = 0;
        while i < bytes.len()
            invariant
                i <= bytes@.len(),
                copy@ == bytes@.subrange(0, i as int),
            decreases bytes@.len() - i,
        {
            copy.push(bytes[i]);
            i = i + 1;
            assert(copy@ =~= bytes@.subrange(0, i as int));
        }
        assert(bytes@.subrange(0, i as int) =~= bytes@);
        Ok(PublicKey { bytes: copy })
    }

    /// Encapsulates a fresh shared secret to the peer's public key.
    /// Returns (ciphertext, shared_secret).
    pub fn encapsulate(peer_public_key: &PublicKey) -> (r: (Vec<u8>, Vec<u8>))
        requires
            peer_public_key.wf(),
        ensures
            encapsulates_to(peer_public_key@, r.0@, r.1@),
            r.0@.len() == CIPHERTEXT_BYTES,
            r.1@.len() == SHARED_SECRET_BYTES,
    {
        kyber_encapsulate(peer_public_key.bytes.as_slice())
    }

    /// Recovers the shared secret from a ciphertext. Only a ciphertext of
    /// the wrong length is refused: any well-formed one yields a secret,
    /// which for a foreign ciphertext is pseudorandom (implicit rejection).
    pub fn decapsulate(&self, ciphertext_bytes: &[u8]) -> (r: Result<Vec<u8>, KyberError>)
        requires
            self.wf(),
        ensures
            ciphertext_bytes@.len() == CIPHERTEXT_BYTES ==> (r matches Ok(ss) && ss@ == kyber_decapsulated(
                ciphertext_bytes@,
                self.secret_key(),
            ) && ss@.len() == SHARED_SECRET_BYTES),
            ciphertext_bytes@.len() != CIPHERTEXT_BYTES ==> r == Err::<Vec<u8>, KyberError>(KyberError::InvalidCiphertextLength),
    {
        if ciphertext_bytes.len() != CIPHERTEXT_BYTES {
            return Err(KyberError::InvalidCiphertextLength);
        }
        Ok(kyber_decapsulate(ciphertext_bytes, self.secret_key.as_slice()))
    }
}

/// Represents a completed key exchange session.
pub struct KyberSession {
    shared_secret: Vec<u8>,
}

impl View for KyberSession {
    type V = Seq<u8>;

    closed spec fn view(&self) -> Seq<u8> {
        self.shared_secret@
    }
}

impl KyberSession {
    /// A session over the given shared secret.
    pub fn new(shared_secret: Vec<u8>) -> (r: Self)
        ensures
            r@ == shared_secret@,
    {
        KyberSession { shared_secret }
    }

    /// The shared secret, from which symmetric keys are derived.
    pub fn shared_secret(&self) -> (r: &[u8])
        ensures
            r@ == self@,
    {
        self.shared_secret.as_slice()
    }

    /// Derives `length` bytes of key material bound to `context`: the
    /// HKDF-SHA256 expansion of the shared secret with `context` as info.
    pub fn derive_key(&self, context: &[u8], length: usize) -> (r: Vec<u8>)
        requires
            length <= MAX_DERIVED_KEY_LEN,
        ensures
            r@ == hkdf_sha256(self@, context@, length as nat),
            r@.len() == length,
    {
        hkdf_expand(self.shared_secret.as_slice(), context, length)
    }
}

/// Relies on `kyber1024::keypair`: a fresh key pair, returned as the bytes
/// of the public and the secret key, of the Kyber1024 lengths; the two are
/// paired.
#[verifier::external_body]
fn kyber_keypair() -> (r: (Vec<u8>, Vec<u8>))
    ensures
        kyber_pair(r.0@, r.1@),
        r.0@.len() == PUBLIC_KEY_BYTES,
        r.1@.len() == SECRET_KEY_BYTES,
{
    let (pk, sk) = kyber1024::keypair();
    (pk.as_bytes().to_vec(), sk.as_bytes().to_vec())
}

/// Relies on `kyber1024::encapsulate`: a fresh (ciphertext, shared secret)
/// pair for the public key, of the Kyber1024 lengths, such that
/// `kyber1024::decapsulate` with the paired secret key recovers the secret
/// (the KEM's correctness, as the crate's own example and test assert; its
/// failure rate for Kyber1024 is about 2^-174).
#[verifier::external_body]
fn kyber_encapsulate(public_key: &[u8]) -> (r: (Vec<u8>, Vec<u8>))
    requires
        public_key@.len() == PUBLIC_KEY_BYTES,
    ensures
        forall|sk: Seq<u8>| kyber_pair(public_key@, sk) ==> kyber_decapsulated(r.0@, sk) == r.1@,
        r.0@.len() == CIPHERTEXT_BYTES,
        r.1@.len() == SHARED_SECRET_BYTES,
{
    let pk = kyber1024::PublicKey::from_bytes(public_key).unwrap();
    let (ss, ct) = kyber1024::encapsulate(&pk);
    (ct.as_bytes().to_vec(), ss.as_bytes().to_vec())
}

/// Relies on `kyber1024::decapsulate`: deterministic in its arguments, and
/// a shared secret of the Kyber1024 length for every well-formed input.
#[verifier::external_body]
fn kyber_decapsulate(ciphertext: &[u8], secret_key: &[u8]) -> (r: Vec<u8>)
    requires
        ciphertext@.len() == CIPHERTEXT_BYTES,
        secret_key@.len() == SECRET_KEY_BYTES,
    ensures
        r@ == kyber_decapsulated(ciphertext@, secret_key@),
        r@.len() == SHARED_SECRET_BYTES,
{
    let ct = kyber1024::Ciphertext::from_bytes(ciphertext).unwrap();
    let sk = kyber1024::SecretKey::from_bytes(secret_key).unwrap();
    kyber1024::decapsulate(&ct, &sk).as_bytes().to_vec()
}

/// Relies on `hkdf::Hkdf::<Sha256>::new(None, secret)` and `expand`: the
/// `length` bytes of HKDF-SHA256 output, which depend on the arguments
/// alone; `expand` refuses only lengths above `MAX_DERIVED_KEY_LEN`.
#[verifier::external_body]
fn hkdf_expand(secret: &[u8], info: &[u8], length: usize) -> (r: Vec<u8>)
    requires
        length <= MAX_DERIVED_KEY_LEN,
    ensures
        r@ == hkdf_sha256(secret@, info@, length as nat),
        r@.len() == length,
{
    let hk = hkdf::Hkdf::<sha2::Sha256>::new(None, secret);
    let mut okm = vec![0u8; length];
    hk.expand(info, &mut okm).unwrap();
    okm
}

} // verus!
