//! Configuration structures for server and client.
//!
//! File paths are held as strings; reading and parsing configuration files
//! happens outside the library.

use vstd::prelude::*;

verus! {

/// Server configuration.
pub struct ServerConfig {
    pub signaling_host: String,
    pub signaling_port: u16,
    pub media_host: String,
    pub audio_port: u16,
    pub video_port: u16,
    pub certfile: String,
    pub keyfile: String,
    pub ca_certfile: Option<String>,
    pub default_max_participants: u32,
    pub log_level: String,
}

/// Capacity given to a room created without one.
pub fn default_max_participants() -> (r: u32)
    ensures
        r == 10,
{
    10
}

/// Log level used when none is configured.
pub fn default_log_level() -> (r: String)
    ensures
        r@ == "info"@,
{
    "info".to_string()
}

impl Default for ServerConfig {
    fn default() -> (r: Self)
        ensures
            r.signaling_host@ == "0.0.0.0"@,
            r.signaling_port == 8443,
            r.media_host@ == "0.0.0.0"@,
            r.audio_port == 10000,
            r.video_port == 10001,
            r.certfile@ == "server.crt"@,
            r.keyfile@ == "server.key"@,
            r.ca_certfile.is_none(),
            r.default_max_participants == 10,
            r.log_level@ == "info"@,
    {
        ServerConfig {
            signaling_host: "0.0.0.0".to_string(),
            signaling_port: 8443,
            media_host: "0.0.0.0".to_string(),
            audio_port: 10000,
            video_port: 10001,
            certfile: "server.crt".to_string(),
            keyfile: "server.key".to_string(),
            ca_certfile: None,
            default_max_participants: default_max_participants(),
            log_level: default_log_level(),
        }
    }
}

/// Client configuration.
pub struct ClientConfig {
    pub server_host: String,
    pub signaling_port: u16,
    pub audio_port: u16,
    pub video_port: u16,
    pub ca_certfile: Option<String>,
    pub certfile: Option<String>,
    pub keyfile: Option<String>,
    pub default_username: String,
    pub video: VideoConfig,
    pub audio: AudioConfig,
    pub log_level: String,
}

/// Display name used when none is configured.
pub fn default_username() -> (r: String)
    ensures
        r@ == "User"@,
{
    "User".to_string()
}

/// Video capture configuration.
pub struct VideoConfig {
    pub width: u32,
    pub height: u32,
    pub fps: u32,
    pub device_index: u32,
}

pub fn default_video_width() -> (r: u32)
    ensures
        r == 640,
{
    640
}

pub fn default_video_height() -> (r: u32)
    ensures
        r == 480,
{
    480
}

pub fn default_video_fps() -> (r: u32)
    ensures
        r == 30,
{
    30
}

impl Default for VideoConfig {
    fn default() -> (r: Self)
        ensures
            r.width == 640,
            r.height == 480,
            r.fps == 30,
            r.device_index == 0,
    {
        VideoConfig {
            width: default_video_width(),
            height: default_video_height(),
            fps: default_video_fps(),
            device_index: 0,
        }
    }
}

/// Audio capture configuration.
pub struct AudioConfig {
    pub sample_rate: u32,
    pub channels: u8,
    pub device_index: Option<u32>,
}

pub fn default_sample_rate() -> (r: u32)
    ensures
        r == 48000,
{
    48000
}

pub fn default_channels() -> (r: u8)
    ensures
        r == 1,
{
    1
}

impl Default for AudioConfig {
    fn default() -> (r: Self)
        ensures
            r.sample_rate == 48000,
            r.channels == 1,
            r.device_index.is_none(),
    {
        AudioConfig { sample_rate: default_sample_rate(), channels: default_channels(), device_index: None }
    }
}

impl Default for ClientConfig {
    fn default() -> (r: Self)
        ensures
            r.server_host@ == "127.0.0.1"@,
            r.signaling_port == 8443,
            r.audio_port == 10000,
            r.video_port == 10001,
            r.ca_certfile.is_none(),
            r.certfile.is_none(),
            r.keyfile.is_none(),
            r.default_username@ == "User"@,
            r.video.width == 640 && r.video.height == 480 && r.video.fps == 30 && r.video.device_index == 0,
            r.audio.sample_rate == 48000 && r.audio.channels == 1 && r.audio.device_index.is_none(),
            r.log_level@ == "info"@,
    {
        ClientConfig {
            server_host: "127.0.0.1".to_string(),
            signaling_port: 8443,
            audio_port: 10000,
            video_port: 10001,
            ca_certfile: None,
            certfile: None,
            keyfile: None,
            default_username: default_username(),
            video: VideoConfig::default(),
            audio: AudioConfig::default(),
            log_level: default_log_level(),
        }
    }
}

/// Configuration errors.
#[derive(Debug, Clone, PartialEq, Eq)]
pub enum ConfigError {
    IoError(String),
    ParseError(String),
}

} // verus!
