use pqc_chat::protocol::{decode_frame_header, frame_payload, unframe, FrameError, MAX_FRAME_LEN};

fn encoded_list_rooms() -> Vec<u8> {
    let mut object = serde_json::Map::new();
    object.insert("type".to_string(), serde_json::Value::String("list_rooms".to_string()));
    serde_json::to_vec(&serde_json::Value::Object(object)).unwrap()
}

#[test]
fn test_framed_message() {
    let framed = frame_payload(&encoded_list_rooms());

    // Check length prefix
    let len = u32::from_be_bytes([framed[0], framed[1], framed[2], framed[3]]);
    assert_eq!(len as usize, framed.len() - 4);
}

#[test]
fn frame_prefix_is_big_endian() {
    let payload = vec![7u8; 300];
    let framed = frame_payload(&payload);
    assert_eq!(&framed[..4], &[0, 0, 1, 44]);
    assert_eq!(&framed[4..], &payload[..]);
    assert_eq!(frame_payload(&[]), vec![0, 0, 0, 0]);
}

#[test]
fn frame_round_trip() {
    for payload in [Vec::new(), encoded_list_rooms(), vec![0xAB; MAX_FRAME_LEN]] {
        assert_eq!(unframe(&frame_payload(&payload)), Ok(payload.clone()));
    }
}

#[test]
fn header_over_ceiling_is_refused() {
    assert_eq!(decode_frame_header(&[0, 1, 0, 0]), Ok(65536));
    assert_eq!(decode_frame_header(&[0, 1, 0, 1]), Err(FrameError::TooLarge));
    assert_eq!(decode_frame_header(&[255, 255, 255, 255]), Err(FrameError::TooLarge));
    assert_eq!(decode_frame_header(&[0, 0, 0, 5]), Ok(5));
    let big = frame_payload(&vec![0u8; MAX_FRAME_LEN + 1]);
    assert_eq!(unframe(&big), Err(FrameError::TooLarge));
}

#[test]
fn short_and_long_buffers_are_refused() {
    assert_eq!(unframe(&[0, 0]), Err(FrameError::Incomplete));
    assert_eq!(unframe(&[0, 0, 0, 3, 1, 2]), Err(FrameError::Incomplete));
    assert_eq!(unframe(&[0, 0, 0, 1, 1, 2]), Err(FrameError::TrailingBytes));
    assert_eq!(unframe(&[0, 0, 0, 2, 1, 2]), Ok(vec![1, 2]));
}
