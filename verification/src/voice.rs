//! One voice session: the handshake with the voice service, its control
//! channel and its RTP data plane.

pub mod gateway;
pub mod payloads;
pub mod udp;

use crate::crypto::{is_preferred, preferred_mode, Cipher, EncryptionMode};
use crate::utils::ReadMessageError;
use payloads::{DiscordPayload, SelectProtocol, SelectProtocolData, Speaking};
use udp::{Address, UDPMessage, VoiceUDP, VoiceUdpView};
use vstd::prelude::*;
use vstd::string::StringExecFns;

verus! {

/// Milliseconds between two frames of a playing track.
pub const FRAME_INTERVAL_MS: u64 = 20;

/// How many frames the reader of a track may be ahead of the pacer.
pub const MAILBOX_CAPACITY: usize = 32;

/// Why a voice session could not be set up, or ended.
#[derive(Debug)]
pub enum VoiceError {
    /// The endpoint does not make a URL.
    InvalidEndpoint(url::ParseError),
    /// The socket of the control channel failed; holds what it reported.
    WebsocketError(String),
    /// The socket of the data plane failed; holds what it reported.
    UdpError(String),
    /// The control channel is gone.
    SendError,
    /// The voice service did not keep to the protocol; holds how.
    UnexpectedProtocolError(String),
    /// The voice service sent what could not be read.
    InvalidPayloadError(ReadMessageError),
}

/// Where the handshake stands, from the moment Identify has been sent.
pub enum Handshake {
    /// Ready has not come yet.
    AwaitingReady,
    /// Ready has come; the data plane is being connected and the local
    /// address discovered.
    Discovering { ssrc: u32, mode: EncryptionMode },
    /// SelectProtocol has been sent; the key has not come yet.
    AwaitingSessionDescription { udp: VoiceUDP },
}

/// What has happened since the last step of the handshake.
#[derive(Debug)]
pub enum HandshakeEvent {
    /// The gateway handed something over, or, with `None`, has ended.
    Gateway(Option<DiscordPayload>),
    /// The address in Ready does not make a socket address.
    AddressRejected,
    /// The data plane is connected, and the voice service sees it under
    /// this address.
    Discovered(Address),
    /// Connecting the data plane or discovering the address failed; holds
    /// what was reported.
    UdpFailed(String),
}

/// What comes of a step of the handshake.
pub enum HandshakeStep {
    /// Connect the data plane to `ip` and `port`, run IP discovery for
    /// `ssrc`, and come back to `next` with the outcome.
    Discover { next: Handshake, ip: String, port: u16, ssrc: u32 },
    /// Send `payload` to the voice service and come back to `next` with what
    /// the gateway hands over.
    Select { next: Handshake, payload: DiscordPayload },
    /// The session stands: start the send loop of `udp`.
    Established { manager: VoiceManager, udp: VoiceUDP },
    /// The session is not to be: nothing is to be started.
    Failed(VoiceError),
}

/// That `step` reports a breach of the protocol with just this text.
pub open spec fn breach(step: HandshakeStep, text: Seq<char>) -> bool {
    step matches HandshakeStep::Failed(VoiceError::UnexpectedProtocolError(reason)) && reason@
        == text
}

fn fail(text: &str) -> (step: HandshakeStep)
    ensures
        breach(step, text@),
{
    HandshakeStep::Failed(VoiceError::UnexpectedProtocolError(String::from_str(text)))
}

impl Handshake {
    /// The handshake as it stands when Identify has just been sent.
    pub fn new() -> (handshake: Handshake)
        ensures
            handshake is AwaitingReady,
    {
        Handshake::AwaitingReady
    }

    /// Takes the handshake one step further.
    ///
    /// Ready must come first and must offer a mode; the preferred one is
    /// chosen. The address found by IP discovery goes into SelectProtocol.
    /// SessionDescription must come next; its key completes the data plane.
    /// Anything else ends the handshake.
    pub fn step(self, event: HandshakeEvent) -> (step: HandshakeStep)
        ensures
            match (self, event) {
                (Handshake::AwaitingReady, HandshakeEvent::Gateway(Some(DiscordPayload::Ready(ready)))) => {
                    if ready.modes@.len() == 0 {
                        breach(step, "no encryption mode was offered"@)
                    } else {
                        &&& step matches HandshakeStep::Discover { next, ip, port, ssrc }
                        &&& ip == ready.ip
                        &&& port == ready.port
                        &&& ssrc == ready.ssrc
                        &&& next matches Handshake::Discovering { ssrc: kept, mode }
                        &&& kept == ready.ssrc
                        &&& is_preferred(ready.modes@, mode)
                    }
                },
                (Handshake::AwaitingReady, HandshakeEvent::Gateway(Some(_))) => breach(
                    step,
                    "ready payload was not sent first"@,
                ),
                (Handshake::AwaitingReady, HandshakeEvent::Gateway(None)) => breach(
                    step,
                    "websocket unexpectedly closed"@,
                ),
                (Handshake::Discovering { ssrc, mode }, HandshakeEvent::Discovered(address)) => {
                    &&& step matches HandshakeStep::Select {
                        next,
                        payload: DiscordPayload::SelectProtocol(select),
                    }
                    &&& select.protocol@ == "udp"@
                    &&& select.data.address@ == address.ip@
                    &&& select.data.port == address.port
                    &&& select.data.mode == mode
                    &&& next matches Handshake::AwaitingSessionDescription { udp }
                    &&& udp@ == (VoiceUdpView {
                        ssrc,
                        local_ip: address.ip@,
                        local_port: address.port,
                        mode,
                        sequence: 0,
                        timestamp: 0,
                        key: None,
                    })
                },
                (Handshake::Discovering { .. }, HandshakeEvent::AddressRejected) => breach(
                    step,
                    "no valid udp address was provided"@,
                ),
                (Handshake::Discovering { .. }, HandshakeEvent::UdpFailed(report)) => {
                    step matches HandshakeStep::Failed(VoiceError::UdpError(kept)) && kept == report
                },
                (
                    Handshake::AwaitingSessionDescription { udp },
                    HandshakeEvent::Gateway(Some(DiscordPayload::SessionDescription(description))),
                ) => {
                    &&& step matches HandshakeStep::Established { manager, udp: ready }
                    &&& manager@ == udp@.ssrc
                    &&& ready@ == (VoiceUdpView { key: Some(description.secret_key@), ..udp@ })
                },
                (
                    Handshake::AwaitingSessionDescription { .. },
                    HandshakeEvent::Gateway(Some(_)),
                ) => breach(step, "SessionDescription was not sent after ready"@),
                (Handshake::AwaitingSessionDescription { .. }, HandshakeEvent::Gateway(None)) => breach(
                    step,
                    "websocket unexpectedly closed"@,
                ),
                _ => breach(step, "event does not fit the handshake"@),
            },
    {
        match self {
            Handshake::AwaitingReady => match event {
                HandshakeEvent::Gateway(Some(DiscordPayload::Ready(ready))) => {
                    match preferred_mode(ready.modes.as_slice()) {
                        None => fail("no encryption mode was offered"),
                        Some(mode) => HandshakeStep::Discover {
                            next: Handshake::Discovering { ssrc: ready.ssrc, mode },
                            ip: ready.ip,
                            port: ready.port,
                            ssrc: ready.ssrc,
                        },
                    }
                },
                HandshakeEvent::Gateway(Some(_)) => fail("ready payload was not sent first"),
                HandshakeEvent::Gateway(None) => fail("websocket unexpectedly closed"),
                _ => fail("event does not fit the handshake"),
            },
            Handshake::Discovering { ssrc, mode } => match event {
                HandshakeEvent::Discovered(address) => {
                    let payload = DiscordPayload::SelectProtocol(
                        SelectProtocol {
                            protocol: String::from_str("udp"),
                            data: SelectProtocolData {
                                address: address.ip.clone(),
                                port: address.port,
                                mode,
                            },
                        },
                    );
                    let udp = VoiceUDP::connect(ssrc, address, mode);
                    HandshakeStep::Select {
                        next: Handshake::AwaitingSessionDescription { udp },
                        payload,
                    }
                },
                HandshakeEvent::AddressRejected => fail("no valid udp address was provided"),
                HandshakeEvent::UdpFailed(report) => HandshakeStep::Failed(
                    VoiceError::UdpError(report),
                ),
                _ => fail("event does not fit the handshake"),
            },
            Handshake::AwaitingSessionDescription { udp } => match event {
                HandshakeEvent::Gateway(Some(DiscordPayload::SessionDescription(description))) => {
                    let mut udp = udp;
                    let manager = VoiceManager { ssrc: udp.ssrc() };
                    *udp.cipher_mut() = Some(Cipher::new(description.secret_key));
                    HandshakeStep::Established { manager, udp }
                },
                HandshakeEvent::Gateway(Some(_)) => fail(
                    "SessionDescription was not sent after ready",
                ),
                HandshakeEvent::Gateway(None) => fail("websocket unexpectedly closed"),
                _ => fail("event does not fit the handshake"),
            },
        }
    }
}

/// What it takes to play a track.
#[derive(Debug)]
pub struct Playback {
    /// To be sent to the voice service before the first frame.
    pub announce: DiscordPayload,
    /// The container to read the frames from.
    pub path: String,
}

/// The handle to a session that stands.
#[derive(Debug)]
pub struct VoiceManager {
    ssrc: u32,
}

impl View for VoiceManager {
    type V = u32;

    /// The SSRC of the session.
    closed spec fn view(&self) -> u32 {
        self.ssrc
    }
}

impl VoiceManager {
    pub fn ssrc(&self) -> (ssrc: u32)
        ensures
            ssrc == self@,
    {
        self.ssrc
    }

    /// What it takes to play the track at `path`: the session announces
    /// that it speaks, then a reader feeds the pacer from the container.
    pub fn play_audio(&self, path: String) -> (playback: Playback)
        ensures
            playback.path == path,
            playback.announce == DiscordPayload::Speaking(
                Speaking { user_id: None, speaking: 1, delay: Some(0u8), ssrc: self@ },
            ),
    {
        Playback {
            announce: DiscordPayload::Speaking(
                Speaking { user_id: None, speaking: 1, delay: Some(0), ssrc: self.ssrc },
            ),
            path,
        }
    }
}

/// What the pacer finds at a tick.
#[derive(Debug)]
pub enum PacerEvent {
    /// The session is gone.
    SessionGone,
    /// The reader has a frame.
    Frame(Vec<u8>),
    /// The reader has come to the end of the track.
    EndOfTrack,
    /// The data plane did not take the last message.
    SubmitFailed,
}

/// What the pacer does at a tick.
#[derive(Debug)]
pub enum PacerAction {
    /// Hand the message to the data plane and wait for the next tick.
    Submit(UDPMessage),
    /// Hand the message to the data plane and end.
    SubmitLast(UDPMessage),
    /// End.
    Stop,
}

/// One tick of the pacer: a frame is passed on as audio, the end of the
/// track is followed by one message of silence, and the pacer ends with the
/// track, with the session and with the data plane.
pub fn pace(event: PacerEvent) -> (action: PacerAction)
    ensures
        action == match event {
            PacerEvent::SessionGone => PacerAction::Stop,
            PacerEvent::Frame(frame) => PacerAction::Submit(UDPMessage::Audio(frame)),
            PacerEvent::EndOfTrack => PacerAction::SubmitLast(UDPMessage::Silence),
            PacerEvent::SubmitFailed => PacerAction::Stop,
        },
{
    match event {
        PacerEvent::SessionGone => PacerAction::Stop,
        PacerEvent::Frame(frame) => PacerAction::Submit(UDPMessage::Audio(frame)),
        PacerEvent::EndOfTrack => PacerAction::SubmitLast(UDPMessage::Silence),
        PacerEvent::SubmitFailed => PacerAction::Stop,
    }
}

} // verus!
