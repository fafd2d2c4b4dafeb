use pqc_chat::audio_codec::{check_frame_len, CodecError, FRAME_SAMPLES};

#[test]
fn frame_length_check() {
    assert_eq!(check_frame_len(FRAME_SAMPLES), Ok(()));
    assert_eq!(check_frame_len(959), Err(CodecError::InvalidFormat));
    assert_eq!(check_frame_len(0), Err(CodecError::InvalidFormat));
}
