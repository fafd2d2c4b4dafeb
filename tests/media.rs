use pqc_chat::media::{MediaError, MediaForwarder, MediaReceiver, MediaSender, MediaType};

#[test]
fn test_media_forwarder() {
    let mut forwarder = MediaForwarder::new(10000, 10001);
    assert!(!forwarder.is_running());

    forwarder.start().unwrap();
    assert!(forwarder.is_running());

    forwarder.stop();
    assert!(!forwarder.is_running());
}

#[test]
fn test_media_sender() {
    let mut sender = MediaSender::new("127.0.0.1:10000".to_string());

    // Should fail when not connected
    assert!(sender.send_audio(&[1, 2, 3]).is_err());

    sender.connect().unwrap();
    assert!(sender.is_connected());

    // Should succeed when connected
    assert!(sender.send_audio(&[1, 2, 3]).is_ok());

    sender.disconnect();
    assert!(!sender.is_connected());
}

#[test]
fn sender_refuses_video_when_disconnected() {
    let mut sender = MediaSender::new("127.0.0.1:10000".to_string());
    assert_eq!(sender.send_video(&[0]), Err(MediaError::NotConnected));
    sender.connect().unwrap();
    assert_eq!(sender.send_video(&[0]), Ok(()));
}

#[test]
fn media_receiver_and_stubs() {
    let mut receiver = MediaReceiver::new(10000, 10001);
    assert!(!receiver.is_running());
    receiver.start().unwrap();
    assert!(receiver.is_running());
    receiver.stop();
    assert!(!receiver.is_running());

    let forwarder = MediaForwarder::new(1, 2);
    assert_eq!(forwarder.perform_dtls_handshake("p1", &[1, 2]).unwrap(), Vec::<u8>::new());
    assert!(forwarder.forward_packet(MediaType::Audio, &[1], "p1", &["p2".to_string()]).is_ok());
}
