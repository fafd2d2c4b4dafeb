//! Media transport endpoints.
//!
//! Encrypted media (DTLS-SRTP) is not implemented: these types track only
//! whether an endpoint is running or connected, and the sequence counters a
//! sender would stamp on its packets.

use vstd::prelude::*;

verus! {

/// Media-related errors.
#[derive(Debug, Clone, PartialEq, Eq)]
pub enum MediaError {
    SocketError(String),
    DtlsHandshakeFailed,
    SrtpInitFailed,
    NotConnected,
}

/// Media types.
#[derive(Debug, Clone, Copy, PartialEq, Eq, Structural)]
pub enum MediaType {
    Audio,
    Video,
}

/// Server-side media forwarder.
pub struct MediaForwarder {
    audio_port: u16,
    video_port: u16,
    is_running: bool,
}

impl MediaForwarder {
    pub closed spec fn audio_port(&self) -> u16 {
        self.audio_port
    }

    pub closed spec fn video_port(&self) -> u16 {
        self.video_port
    }

    pub closed spec fn running(&self) -> bool {
        self.is_running
    }

    pub fn new(audio_port: u16, video_port: u16) -> (r: Self)
        ensures
            r.audio_port() == audio_port,
            r.video_port() == video_port,
            !r.running(),
    {
        MediaForwarder { audio_port, video_port, is_running: false }
    }

    /// Starts forwarding.
    pub fn start(&mut self) -> (r: Result<(), MediaError>)
        ensures
            r.is_ok(),
            final(self).running(),
            final(self).audio_port() == old(self).audio_port(),
            final(self).video_port() == old(self).video_port(),
    {
        self.is_running = true;
        Ok(())
    }

    /// Stops forwarding.
    pub fn stop(&mut self)
        ensures
            !final(self).running(),
            final(self).audio_port() == old(self).audio_port(),
            final(self).video_port() == old(self).video_port(),
    {
        self.is_running = false;
    }

    /// DTLS handshake with a participant; answers with an empty flight.
    pub fn perform_dtls_handshake(&self, participant_id: &str, client_hello: &[u8]) -> (r: Result<Vec<u8>, MediaError>)
        ensures
            r matches Ok(reply) && reply@.len() == 0,
    {
        Ok(Vec::new())
    }

    /// Forwards a media packet from `source` to `targets`.
    pub fn forward_packet(&self, media_type: MediaType, data: &[u8], source: &str, targets: &[String]) -> (r: Result<(), MediaError>)
        ensures
            r.is_ok(),
    {
        Ok(())
    }

    pub fn is_running(&self) -> (r: bool)
        ensures
            r == self.running(),
    {
        self.is_running
    }
}

/// Client-side media sender.
pub struct MediaSender {
    /// Address of the media server, as `host:port`.
    server_addr: String,
    is_connected: bool,
    audio_sequence: u16,
    video_sequence: u16,
}

impl MediaSender {
    pub closed spec fn server_addr(&self) -> Seq<char> {
        self.server_addr@
    }

    pub closed spec fn connected(&self) -> bool {
        self.is_connected
    }

    pub closed spec fn audio_sequence(&self) -> u16 {
        self.audio_sequence
    }

    pub closed spec fn video_sequence(&self) -> u16 {
        self.video_sequence
    }

    pub fn new(server_addr: String) -> (r: Self)
        ensures
            r.server_addr() == server_addr@,
            !r.connected(),
            r.audio_sequence() == 0,
            r.video_sequence() == 0,
    {
        MediaSender { server_addr, is_connected: false, audio_sequence: 0, video_sequence: 0 }
    }

    pub fn connect(&mut self) -> (r: Result<(), MediaError>)
        ensures
            r.is_ok(),
            final(self).connected(),
            final(self).server_addr() == old(self).server_addr(),
            final(self).audio_sequence() == old(self).audio_sequence(),
            final(self).video_sequence() == old(self).video_sequence(),
    {
        self.is_connected = true;
        Ok(())
    }

    pub fn disconnect(&mut self)
        ensures
            !final(self).connected(),
            final(self).server_addr() == old(self).server_addr(),
            final(self).audio_sequence() == old(self).audio_sequence(),
            final(self).video_sequence() == old(self).video_sequence(),
    {
        self.is_connected = false;
    }

    /// Sends audio; refused when not connected. Each send advances the
    /// audio sequence number, wrapping at 2^16.
    pub fn send_audio(&mut self, data: &[u8]) -> (r: Result<(), MediaError>)
        ensures
            old(self).connected() ==> r.is_ok() && final(self).audio_sequence() == (if old(self).audio_sequence()
                == u16::MAX { 0 } else { (old(self).audio_sequence() + 1) as u16 }),
            !old(self).connected() ==> r == Err::<(), MediaError>(MediaError::NotConnected) && final(self).audio_sequence()
                == old(self).audio_sequence(),
            final(self).connected() == old(self).connected(),
            final(self).server_addr() == old(self).server_addr(),
            final(self).video_sequence() == old(self).video_sequence(),
    {
        if !self.is_connected {
            return Err(MediaError::NotConnected);
        }
        self.audio_sequence = if self.audio_sequence == u16::MAX { 0 } else { self.audio_sequence + 1 };
        Ok(())
    }

    /// Sends video; refused when not connected. Each send advances the
    /// video sequence number, wrapping at 2^16.
    pub fn send_video(&mut self, data: &[u8]) -> (r: Result<(), MediaError>)
        ensures
            old(self).connected() ==> r.is_ok() && final(self).video_sequence() == (if old(self).video_sequence()
                == u16::MAX { 0 } else { (old(self).video_sequence() + 1) as u16 }),
            !old(self).connected() ==> r == Err::<(), MediaError>(MediaError::NotConnected) && final(self).video_sequence()
                == old(self).video_sequence(),
            final(self).connected() == old(self).connected(),
            final(self).server_addr() == old(self).server_addr(),
            final(self).audio_sequence() == old(self).audio_sequence(),
    {
        if !self.is_connected {
            return Err(MediaError::NotConnected);
        }
        self.video_sequence = if self.video_sequence == u16::MAX { 0 } else { self.video_sequence + 1 };
        Ok(())
    }

    pub fn is_connected(&self) -> (r: bool)
        ensures
            r == self.connected(),
    {
        self.is_connected
    }
}

/// Client-side media receiver.
pub struct MediaReceiver {
    audio_port: u16,
    video_port: u16,
    is_running: bool,
}

impl MediaReceiver {
    pub closed spec fn audio_port(&self) -> u16 {
        self.audio_port
    }

    pub closed spec fn video_port(&self) -> u16 {
        self.video_port
    }

    pub closed spec fn running(&self) -> bool {
        self.is_running
    }

    pub fn new(audio_port: u16, video_port: u16) -> (r: Self)
        ensures
            r.audio_port() == audio_port,
            r.video_port() == video_port,
            !r.running(),
    {
        MediaReceiver { audio_port, video_port, is_running: false }
    }

    /// Starts receiving.
    pub fn start(&mut self) -> (r: Result<(), MediaError>)
        ensures
            r.is_ok(),
            final(self).running(),
            final(self).audio_port() == old(self).audio_port(),
            final(self).video_port() == old(self).video_port(),
    {
        self.is_running = true;
        Ok(())
    }

    /// Stops receiving.
    pub fn stop(&mut self)
        ensures
            !final(self).running(),
            final(self).audio_port() == old(self).audio_port(),
            final(self).video_port() == old(self).video_port(),
    {
        self.is_running = false;
    }

    pub fn is_running(&self) -> (r: bool)
        ensures
            r == self.running(),
    {
        self.is_running
    }
}

} // verus!
