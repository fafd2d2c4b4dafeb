//! Audio frame format expected by the compression codec.
//!
//! The codec works on 20 ms mono frames at 48 kHz; the encoding itself runs
//! outside the library.

use vstd::prelude::*;

verus! {

/// Samples in one 20 ms frame at 48 kHz.
pub const FRAME_SAMPLES: usize = 960;

/// Codec errors.
#[derive(Debug, Clone, PartialEq, Eq)]
pub enum CodecError {
    OpusError(String),
    InvalidFormat,
    BufferTooSmall,
}

/// Accepts a frame of exactly `FRAME_SAMPLES` samples.
pub fn check_frame_len(samples: usize) -> (r: Result<(), CodecError>)
    ensures
        samples == FRAME_SAMPLES ==> r.is_ok(),
        samples != FRAME_SAMPLES ==> r == Err::<(), CodecError>(CodecError::InvalidFormat),
{
    if samples != FRAME_SAMPLES {
        Err(CodecError::InvalidFormat)
    } else {
        Ok(())
    }
}

} // verus!
