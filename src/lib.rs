//! Signaling and relay core for post-quantum secured audio/chat rooms.
//!
//! The crate holds the verified logic of the service: the key-encapsulation
//! handshake, frame handling for the signaling wire protocol, the room
//! registry, the per-connection dispatch of requests and the real-time audio
//! buffering used on the datagram path.

mod ids;
mod text;
mod time;

pub mod audio_codec;
pub mod client;
pub mod config;
pub mod crypto;
pub mod drop_policy;
pub mod media;
pub mod protocol;
pub mod room;
pub mod signaling;
pub mod udp_audio;

pub use crypto::kyber::KyberKeyExchange;
pub use protocol::SignalingMessage;
pub use config::{ClientConfig, ServerConfig};
pub use room::{Participant, Room, RoomManager};
