use pqc_chat::client::ClientEngine;
use pqc_chat::crypto::kyber::{KyberError, KyberKeyExchange};
use pqc_chat::ClientConfig;

#[test]
fn client_completes_key_exchange() {
    let mut client = ClientEngine::new(ClientConfig::default(), "User".to_string());
    assert!(!client.has_session());
    assert_eq!(client.complete_key_exchange(&[1, 2, 3]), Err(KyberError::InvalidCiphertextLength));
    assert!(!client.has_session());
    let pk = KyberKeyExchange::public_key_from_bytes(&client.get_public_key()).unwrap();
    let (ct, _ss) = KyberKeyExchange::encapsulate(&pk);
    assert_eq!(client.complete_key_exchange(&ct), Ok(()));
    assert!(client.has_session());
}
