//! Client side of the key exchange.

use vstd::prelude::*;

use crate::config::ClientConfig;
use crate::crypto::kyber::{kyber_decapsulated, KyberError, KyberKeyExchange, KyberSession, CIPHERTEXT_BYTES};

verus! {

/// Client engine state: the configuration, a fresh key pair and, once the
/// exchange has completed, the session it established.
pub struct ClientEngine {
    config: ClientConfig,
    kyber: KyberKeyExchange,
    session: Option<KyberSession>,
    participant_id: Option<String>,
    username: String,
    current_room: Option<String>,
}

impl ClientEngine {
    pub closed spec fn wf(&self) -> bool {
        self.kyber.wf()
    }

    /// The key pair's public key.
    pub closed spec fn public_key(&self) -> Seq<u8> {
        self.kyber.public_key()
    }

    /// The key pair's secret key.
    pub closed spec fn secret_key(&self) -> Seq<u8> {
        self.kyber.secret_key()
    }

    /// The display name the client logs in with.
    pub closed spec fn username(&self) -> Seq<char> {
        self.username@
    }

    /// The established shared secret, if any.
    pub closed spec fn session_secret(&self) -> Option<Seq<u8>> {
        match self.session {
            Some(s) => Some(s@),
            None => None,
        }
    }

    /// A client with a freshly generated key pair and no session.
    pub fn new(config: ClientConfig, username: String) -> (r: Self)
        ensures
            r.wf(),
            r.session_secret().is_none(),
            r.username() == username@,
    {
        ClientEngine {
            config,
            kyber: KyberKeyExchange::new(),
            session: None,
            participant_id: None,
            username,
            current_room: None,
        }
    }

    /// The public key to send in `KeyExchangeInit`.
    pub fn get_public_key(&self) -> (r: Vec<u8>)
        ensures
            r@ == self.public_key(),
    {
        self.kyber.public_key_bytes()
    }

    /// Completes the exchange with the server's ciphertext. Only a
    /// ciphertext of the wrong length is refused; then nothing changes.
    pub fn complete_key_exchange(&mut self, ciphertext: &[u8]) -> (r: Result<(), KyberError>)
        requires
            old(self).wf(),
        ensures
            final(self).wf(),
            final(self).public_key() == old(self).public_key(),
            final(self).secret_key() == old(self).secret_key(),
            ciphertext@.len() == CIPHERTEXT_BYTES ==> r.is_ok() && final(self).session_secret() == Some(
                kyber_decapsulated(ciphertext@, old(self).secret_key()),
            ),
            ciphertext@.len() != CIPHERTEXT_BYTES ==> r == Err::<(), KyberError>(KyberError::InvalidCiphertextLength)
                && final(self).session_secret() == old(self).session_secret(),
    {
        match self.kyber.decapsulate(ciphertext) {
            Ok(shared_secret) => {
                self.session = Some(KyberSession::new(shared_secret));
                Ok(())
            },
            Err(e) => Err(e),
        }
    }

    /// Whether the key exchange has completed.
    pub fn has_session(&self) -> (r: bool)
        ensures
            r == self.session_secret().is_some(),
    {
        self.session.is_some()
    }
}

} // verus!
