use pqc_chat::config::{AudioConfig, VideoConfig};
use pqc_chat::{ClientConfig, ServerConfig};

#[test]
fn test_default_server_config() {
    let config = ServerConfig::default();
    assert_eq!(config.signaling_port, 8443);
    assert_eq!(config.audio_port, 10000);
    assert_eq!(config.video_port, 10001);
}

#[test]
fn test_default_client_config() {
    let config = ClientConfig::default();
    assert_eq!(config.server_host, "127.0.0.1");
    assert_eq!(config.video.width, 640);
    assert_eq!(config.audio.sample_rate, 48000);
}

#[test]
fn server_config_defaults_in_full() {
    let config = ServerConfig::default();
    assert_eq!(config.signaling_host, "0.0.0.0");
    assert_eq!(config.media_host, "0.0.0.0");
    assert_eq!(config.certfile, "server.crt");
    assert_eq!(config.keyfile, "server.key");
    assert!(config.ca_certfile.is_none());
    assert_eq!(config.default_max_participants, 10);
    assert_eq!(config.log_level, "info");
}

#[test]
fn media_config_defaults() {
    let video = VideoConfig::default();
    assert_eq!((video.width, video.height, video.fps, video.device_index), (640, 480, 30, 0));
    let audio = AudioConfig::default();
    assert_eq!(audio.sample_rate, 48000);
    assert_eq!(audio.channels, 1);
    assert!(audio.device_index.is_none());
    let client = ClientConfig::default();
    assert_eq!(client.default_username, "User");
    assert_eq!(client.signaling_port, 8443);
}
