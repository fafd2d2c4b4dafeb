//! Signaling protocol: the closed set of request/response variants and the
//! length-prefixed framing that carries their encoded form.
//!
//! Each frame is a 4-byte big-endian payload length followed by the payload.
//! Receivers refuse a declared length above `MAX_FRAME_LEN`.

use vstd::prelude::*;

verus! {

/// Largest payload a receiver accepts on the control channel (64 KiB).
pub const MAX_FRAME_LEN: usize = 65536;

/// Length of the frame header.
pub const HEADER_LEN: usize = 4;

/// Signaling messages exchanged between client and server.
#[derive(Debug, Clone, PartialEq, Eq)]
pub enum SignalingMessage {
    // Client -> Server
    Login { username: String },
    ListRooms,
    ListServerUsers,
    CreateRoom { name: String, max_participants: Option<u32> },
    JoinRoom { room_id: String, username: String },
    LeaveRoom,
    ToggleAudio { enabled: bool },
    ToggleVideo { enabled: bool },
    MediaOffer { target_id: String, sdp: String },
    MediaAnswer { target_id: String, sdp: String },
    IceCandidate { target_id: String, candidate: String },
    SendMessage { content: String },
    AudioData { data: Vec<u8> },
    KeyExchangeInit { public_key: Vec<u8> },
    KeyExchangeResponse { ciphertext: Vec<u8> },
    // Server -> Client
    LoginResponse { success: bool, participant_id: Option<String>, error: Option<String> },
    RoomList { rooms: Vec<RoomInfo> },
    ServerUserList { users: Vec<ServerUserInfo> },
    RoomCreated {
        success: bool,
        room_id: Option<String>,
        room_name: Option<String>,
        error: Option<String>,
    },
    RoomJoined {
        success: bool,
        room_id: Option<String>,
        room_name: Option<String>,
        participants: Option<Vec<ParticipantInfo>>,
        error: Option<String>,
    },
    RoomLeft { success: bool, error: Option<String> },
    ParticipantJoined { participant_id: String, username: String },
    ParticipantLeft { participant_id: String },
    AudioToggled { participant_id: String, enabled: bool },
    VideoToggled { participant_id: String, enabled: bool },
    MessageReceived { sender_id: String, sender_username: String, content: String, timestamp: u64 },
    AudioDataReceived { sender_id: String, data: Vec<u8> },
    Error { message: String },
}

/// Information about a room.
#[derive(Debug, Clone, PartialEq, Eq)]
pub struct RoomInfo {
    pub id: String,
    pub name: String,
    pub participants: u32,
    pub max_participants: u32,
    pub is_locked: bool,
}

/// Information about a participant.
#[derive(Debug, Clone, PartialEq, Eq)]
pub struct ParticipantInfo {
    pub id: String,
    pub username: String,
    pub audio_enabled: bool,
    pub video_enabled: bool,
}

/// Information about a server-wide user.
#[derive(Debug, Clone, PartialEq, Eq)]
pub struct ServerUserInfo {
    pub id: String,
    pub username: String,
    /// Unix timestamp in seconds.
    pub connected_at: u64,
    pub current_room: Option<String>,
    pub audio_enabled: bool,
    pub video_enabled: bool,
}

/// Why a byte sequence is not one well-formed frame.
#[derive(Debug, Clone, Copy, PartialEq, Eq, Structural)]
pub enum FrameError {
    /// Fewer bytes than the header (or the declared length) needs.
    Incomplete,
    /// The declared length exceeds `MAX_FRAME_LEN`.
    TooLarge,
    /// Bytes follow the declared payload.
    TrailingBytes,
}

/// Big-endian bytes of a 32-bit length.
pub open spec fn be32(n: u32) -> Seq<u8> {
    seq![(n / 0x100_0000) as u8, ((n / 0x1_0000) % 0x100) as u8, ((n / 0x100) % 0x100) as u8, (n % 0x100) as u8]
}

/// The length that a 4-byte header declares.
pub open spec fn header_value(b: Seq<u8>) -> nat
    recommends
        b.len() >= 4,
{
    (b[0] as nat) * 0x100_0000 + (b[1] as nat) * 0x1_0000 + (b[2] as nat) * 0x100 + (b[3] as nat)
}

/// A payload with its length prefix.
pub open spec fn frame_of(payload: Seq<u8>) -> Seq<u8> {
    be32(payload.len() as u32) + payload
}

/// The payload held by a buffer that should contain exactly one frame.
pub open spec fn unframe_of(b: Seq<u8>) -> Result<Seq<u8>, FrameError> {
    if b.len() < HEADER_LEN {
        Err(FrameError::Incomplete)
    } else if header_value(b) > MAX_FRAME_LEN {
        Err(FrameError::TooLarge)
    } else if b.len() < HEADER_LEN + header_value(b) {
        Err(FrameError::Incomplete)
    } else if b.len() > HEADER_LEN + header_value(b) {
        Err(FrameError::TrailingBytes)
    } else {
        Ok(b.subrange(HEADER_LEN as int, b.len() as int))
    }
}

/// Prefixes `payload` with its length as 4 big-endian bytes.
pub fn frame_payload(payload: &[u8]) -> (r: Vec<u8>)
    requires
        payload@.len() <= u32::MAX,
    ensures
        r@ == frame_of(payload@),
{
    let n = payload.len() as u32;
    let mut framed: Vec<u8> = Vec::with_capacity(payload.len());
    framed.push((n / 0x100_0000) as u8);
    framed.push(((n / 0x1_0000) % 0x100) as u8);
    framed.push(((n / 0x100) % 0x100) as u8);
    framed.push((n % 0x100) as u8);
    let mut i: usize = 0;
    while i < payload.len()
        invariant
            i <= payload@.len(),
            framed@ == be32(n) + payload@.subrange(0, i as int),
        decreases payload@.len() - i,
    {
        framed.push(payload[i]);
        i = i + 1;
        assert(framed@ =~= be32(n) + payload@.subrange(0, i as int));
    }
    assert(payload@.subrange(0, payload@.len() as int) =~= payload@);
    framed
}

/// Reads the payload length from a frame header, refusing one above the
/// control-channel ceiling.
pub fn decode_frame_header(header: &[u8; 4]) -> (r: Result<usize, FrameError>)
    ensures
        header_value(header@) <= MAX_FRAME_LEN ==> r == Ok::<usize, FrameError>(header_value(header@) as usize),
        header_value(header@) > MAX_FRAME_LEN ==> r == Err::<usize, FrameError>(FrameError::TooLarge),
{
    let len: u32 = (header[0] as u32) * 0x100_0000 + (header[1] as u32) * 0x1_0000 + (header[2] as u32) * 0x100
        + (header[3] as u32);
    if len as usize > MAX_FRAME_LEN {
        Err(FrameError::TooLarge)
    } else {
        Ok(len as usize)
    }
}

/// Extracts the payload of a buffer that holds exactly one frame.
pub fn unframe(bytes: &[u8]) -> (r: Result<Vec<u8>, FrameError>)
    ensures
        match r {
            Ok(p) => unframe_of(bytes@) == Ok::<Seq<u8>, FrameError>(p@),
            Err(e) => unframe_of(bytes@) == Err::<Seq<u8>, FrameError>(e),
        },
{
    if bytes.len() < HEADER_LEN {
        return Err(FrameError::Incomplete);
    }
    let header: [u8; 4] = [bytes[0], bytes[1], bytes[2], bytes[3]];
    assert(header@ =~= bytes@.subrange(0, 4));
    let len = match decode_frame_header(&header) {
        Ok(len) => len,
        Err(e) => {
            return Err(e);
        },
    };
    if bytes.len() - HEADER_LEN < len {
        return Err(FrameError::Incomplete);
    }
    if bytes.len() - HEADER_LEN > len {
        return Err(FrameError::TrailingBytes);
    }
    let mut payload: Vec<u8> = Vec::with_capacity(len);
    let mut i: usize = HEADER_LEN;
    while i < bytes.len()
        invariant
            HEADER_LEN <= i <= bytes@.len(),
            payload@ == bytes@.subrange(HEADER_LEN as int, i as int),
        decreases bytes@.len() - i,
    {
        payload.push(bytes[i]);
        i = i + 1;
        assert(payload@ =~= bytes@.subrange(HEADER_LEN as int, i as int));
    }
    Ok(payload)
}

/// Framing round trip: a payload within the ceiling comes back unchanged
/// from its frame.
pub proof fn lemma_frame_round_trip(payload: Seq<u8>)
    requires
        payload.len() <= MAX_FRAME_LEN,
    ensures
        unframe_of(frame_of(payload)) == Ok::<Seq<u8>, FrameError>(payload),
{
    let n = payload.len() as u32;
    let f = frame_of(payload);
    assert(header_value(f) == n) by {
        assert(f[0] == (n / 0x100_0000) as u8);
        assert(f[1] == ((n / 0x1_0000) % 0x100) as u8);
        assert(f[2] == ((n / 0x100) % 0x100) as u8);
        assert(f[3] == (n % 0x100) as u8);
    }
    assert(f.subrange(4, f.len() as int) =~= payload);
}

} // verus!
