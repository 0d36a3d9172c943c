use jukebox::client::payloads::{VoiceUpdate, VoiceUpdateEvent};
use jukebox::crypto::{Cipher, EncryptionMode};
use jukebox::utils::ReadMessageError;
use jukebox::voice::gateway::{
    first_ready, gateway_url, GatewayAction, GatewayEvent, GatewaySource, VoiceGateway,
};
use jukebox::voice::payloads::{
    ClientDisconnect, DiscordPayload, Hello, Ready, SessionDescription, Speaking,
};
use jukebox::voice::udp::{Address, UDPMessage};
use jukebox::voice::{
    pace, Handshake, HandshakeEvent, HandshakeStep, PacerAction, PacerEvent, VoiceError,
    FRAME_INTERVAL_MS, MAILBOX_CAPACITY,
};

fn ticket() -> VoiceUpdate {
    VoiceUpdate {
        session_id: "session-1".to_string(),
        event: VoiceUpdateEvent {
            token: "token-1".to_string(),
            guild_id: "guild-1".to_string(),
            endpoint: "voice.example.com:443".to_string(),
        },
    }
}

fn ready(modes: Vec<EncryptionMode>) -> DiscordPayload {
    DiscordPayload::Ready(Ready {
        ssrc: 0xcafe_babe,
        ip: "127.0.0.1".to_string(),
        port: 50000,
        modes,
    })
}

fn description() -> DiscordPayload {
    DiscordPayload::SessionDescription(SessionDescription {
        mode: EncryptionMode::XSalsa20Poly1305,
        secret_key: [0x01; 32],
    })
}

fn breach_text(step: HandshakeStep) -> String {
    match step {
        HandshakeStep::Failed(VoiceError::UnexpectedProtocolError(text)) => text,
        _ => panic!("the step is no breach of protocol"),
    }
}

fn after_ready() -> Handshake {
    let modes = vec![EncryptionMode::XSalsa20Poly1305Suffix, EncryptionMode::XSalsa20Poly1305Lite(0)];
    match Handshake::new().step(HandshakeEvent::Gateway(Some(ready(modes)))) {
        HandshakeStep::Discover { next, .. } => next,
        _ => panic!("Ready was not accepted"),
    }
}

fn after_discovery() -> Handshake {
    let found = Address { ip: "203.0.113.7".to_string(), port: 16962 };
    match after_ready().step(HandshakeEvent::Discovered(found)) {
        HandshakeStep::Select { next, .. } => next,
        _ => panic!("the discovered address was not accepted"),
    }
}

#[test]
fn happy_path_handshake() {
    let hello = DiscordPayload::Hello(Hello { v: 7, heartbeat_interval: 41250 });
    let (gateway, identify) =
        VoiceGateway::connect("user-1".to_string(), ticket(), Ok(hello)).unwrap();
    assert_eq!(gateway.heartbeat_interval(), 41250);
    match identify {
        DiscordPayload::Identify(identify) => {
            assert_eq!(identify.server_id, "guild-1");
            assert_eq!(identify.user_id, "user-1");
            assert_eq!(identify.session_id, "session-1");
            assert_eq!(identify.token, "token-1");
        }
        _ => panic!("the first message is not Identify"),
    }

    let modes = vec![EncryptionMode::XSalsa20Poly1305, EncryptionMode::XSalsa20Poly1305Lite(0)];
    let forwarded = match gateway.run(GatewayEvent::Inbound(Ok(ready(modes)))) {
        GatewayAction::Forward(payload) => payload,
        _ => panic!("Ready was not forwarded"),
    };
    let next = match Handshake::new().step(HandshakeEvent::Gateway(Some(forwarded))) {
        HandshakeStep::Discover { next, ip, port, ssrc } => {
            assert_eq!(ip, "127.0.0.1");
            assert_eq!(port, 50000);
            assert_eq!(ssrc, 0xcafe_babe);
            next
        }
        _ => panic!("Ready did not lead to discovery"),
    };

    let found = Address { ip: "203.0.113.7".to_string(), port: 16962 };
    let next = match next.step(HandshakeEvent::Discovered(found)) {
        HandshakeStep::Select { next, payload: DiscordPayload::SelectProtocol(select) } => {
            assert_eq!(select.protocol, "udp");
            assert_eq!(select.data.address, "203.0.113.7");
            assert_eq!(select.data.port, 16962);
            assert_eq!(select.data.mode, EncryptionMode::XSalsa20Poly1305);
            assert_eq!(select.data.mode.name(), "xsalsa20_poly1305");
            next
        }
        _ => panic!("discovery did not lead to SelectProtocol"),
    };

    let forwarded = match gateway.run(GatewayEvent::Inbound(Ok(description()))) {
        GatewayAction::Forward(payload) => payload,
        _ => panic!("SessionDescription was not forwarded"),
    };
    let (manager, mut udp) = match next.step(HandshakeEvent::Gateway(Some(forwarded))) {
        HandshakeStep::Established { manager, udp } => (manager, udp),
        _ => panic!("SessionDescription did not complete the handshake"),
    };
    assert_eq!(manager.ssrc(), 0xcafe_babe);
    assert_eq!(udp.ssrc(), 0xcafe_babe);
    assert_eq!(udp.mode(), EncryptionMode::XSalsa20Poly1305);
    assert_eq!(udp.local_addr(), Address { ip: "203.0.113.7".to_string(), port: 16962 });
    assert_eq!(udp.sequence(), 0);
    assert_eq!(udp.timestamp(), 0);

    let mut twin = EncryptionMode::XSalsa20Poly1305;
    let header = jukebox::voice::udp::build_rtp_header(0, 0, 0xcafe_babe);
    let expected = twin.encrypt(&[0xf8, 0xff, 0xfe], &header, &Cipher::new([0x01; 32])).unwrap();
    assert_eq!(udp.next_packet(&UDPMessage::Silence), Ok(expected));

    let playback = manager.play_audio("track.webm".to_string());
    assert_eq!(playback.path, "track.webm");
    match playback.announce {
        DiscordPayload::Speaking(speaking) => {
            assert_eq!(
                speaking,
                Speaking { user_id: None, speaking: 1, delay: Some(0), ssrc: 0xcafe_babe }
            );
        }
        _ => panic!("playing is not announced by Speaking"),
    }
}

#[test]
fn handshake_chooses_lite_where_plain_is_not_offered() {
    match after_ready() {
        Handshake::Discovering { ssrc, mode } => {
            assert_eq!(ssrc, 0xcafe_babe);
            assert_eq!(mode, EncryptionMode::XSalsa20Poly1305Lite(0));
        }
        _ => panic!("the handshake is not discovering"),
    }
}

#[test]
fn handshake_fails_where_no_mode_is_offered() {
    let step = Handshake::new().step(HandshakeEvent::Gateway(Some(ready(Vec::new()))));
    assert_eq!(breach_text(step), "no encryption mode was offered");
}

#[test]
fn handshake_fails_where_ready_does_not_come_first() {
    let step = Handshake::new().step(HandshakeEvent::Gateway(Some(description())));
    assert_eq!(breach_text(step), "ready payload was not sent first");
}

#[test]
fn handshake_fails_where_the_gateway_ends_before_ready() {
    let step = Handshake::new().step(HandshakeEvent::Gateway(None));
    assert_eq!(breach_text(step), "websocket unexpectedly closed");
}

#[test]
fn handshake_fails_on_an_address_that_is_none() {
    let step = after_ready().step(HandshakeEvent::AddressRejected);
    assert_eq!(breach_text(step), "no valid udp address was provided");
}

#[test]
fn handshake_fails_with_the_report_of_the_data_plane() {
    match after_ready().step(HandshakeEvent::UdpFailed("network unreachable".to_string())) {
        HandshakeStep::Failed(VoiceError::UdpError(report)) => {
            assert_eq!(report, "network unreachable")
        }
        _ => panic!("the failure of the data plane was not reported"),
    }
}

#[test]
fn handshake_fails_where_session_description_does_not_follow() {
    let modes = vec![EncryptionMode::XSalsa20Poly1305];
    let step = after_discovery().step(HandshakeEvent::Gateway(Some(ready(modes))));
    assert_eq!(breach_text(step), "SessionDescription was not sent after ready");
}

#[test]
fn handshake_fails_where_the_gateway_ends_before_the_key() {
    let step = after_discovery().step(HandshakeEvent::Gateway(None));
    assert_eq!(breach_text(step), "websocket unexpectedly closed");
}

#[test]
fn handshake_fails_on_events_out_of_turn() {
    let found = Address { ip: "203.0.113.7".to_string(), port: 1 };
    let step = Handshake::new().step(HandshakeEvent::Discovered(found.clone()));
    assert_eq!(breach_text(step), "event does not fit the handshake");
    let step = after_ready().step(HandshakeEvent::Gateway(Some(description())));
    assert_eq!(breach_text(step), "event does not fit the handshake");
    let step = after_discovery().step(HandshakeEvent::Discovered(found));
    assert_eq!(breach_text(step), "event does not fit the handshake");
    let step = after_discovery().step(HandshakeEvent::AddressRejected);
    assert_eq!(breach_text(step), "event does not fit the handshake");
}

#[test]
fn gateway_wants_hello_first() {
    let first = Ok(DiscordPayload::Resumed);
    match VoiceGateway::connect("user-1".to_string(), ticket(), first) {
        Err(VoiceError::UnexpectedProtocolError(text)) => {
            assert_eq!(text, "first message was not Hello")
        }
        _ => panic!("a first message other than Hello was accepted"),
    }
}

#[test]
fn gateway_reports_a_first_read_that_failed() {
    let first = Err(ReadMessageError::SerializationError("{".to_string()));
    match VoiceGateway::connect("user-1".to_string(), ticket(), first) {
        Err(VoiceError::InvalidPayloadError(cause)) => {
            assert_eq!(cause, ReadMessageError::SerializationError("{".to_string()))
        }
        _ => panic!("a failed first read was accepted"),
    }
}

#[test]
fn gateway_keeps_the_ids_of_its_session() {
    let hello = DiscordPayload::Hello(Hello { v: 7, heartbeat_interval: 5 });
    let (gateway, _) = VoiceGateway::connect("user-1".to_string(), ticket(), Ok(hello)).unwrap();
    assert_eq!(gateway.user_id(), "user-1");
    assert_eq!(gateway.guild_id(), "guild-1");
    assert_eq!(gateway.endpoint(), "voice.example.com:443");
    assert_eq!(gateway.session_id(), "session-1");
}

#[test]
fn gateway_url_is_the_endpoint_as_a_secure_websocket_url() {
    assert_eq!(gateway_url("voice.example.com").unwrap(), "wss://voice.example.com/?v=7");
    assert_eq!(gateway_url("voice.example.com:443").unwrap(), "wss://voice.example.com/?v=7");
    assert_eq!(gateway_url("voice.example.com:8443").unwrap(), "wss://voice.example.com:8443/?v=7");
    assert_eq!(gateway_url("VOICE.example.com/path").unwrap(), "wss://voice.example.com/path?v=7");
}

#[test]
fn gateway_url_rejects_what_is_no_endpoint() {
    assert!(matches!(gateway_url(""), Err(VoiceError::InvalidEndpoint(_))));
    assert!(matches!(gateway_url("host:notaport"), Err(VoiceError::InvalidEndpoint(_))));
    match gateway_url("exa mple.com") {
        Err(VoiceError::InvalidEndpoint(e)) => {
            assert_eq!(e, url::Url::parse("wss://exa mple.com?v=7").unwrap_err())
        }
        _ => panic!("a host with a space was accepted"),
    }
}

fn gateway() -> VoiceGateway {
    let hello = DiscordPayload::Hello(Hello { v: 7, heartbeat_interval: 41250 });
    VoiceGateway::connect("user-1".to_string(), ticket(), Ok(hello)).unwrap().0
}

#[test]
fn gateway_sends_what_its_owner_hands_over() {
    let speaking =
        DiscordPayload::Speaking(Speaking { user_id: None, speaking: 1, delay: Some(0), ssrc: 4 });
    match gateway().run(GatewayEvent::Outbound(Some(speaking))) {
        GatewayAction::Send(DiscordPayload::Speaking(sent)) => assert_eq!(sent.ssrc, 4),
        _ => panic!("the message was not sent"),
    }
}

#[test]
fn gateway_stops_when_its_owner_is_gone() {
    assert!(matches!(gateway().run(GatewayEvent::Outbound(None)), GatewayAction::Stop));
}

#[test]
fn gateway_sends_a_heartbeat_with_the_time_on_every_tick() {
    match gateway().run(GatewayEvent::Tick(1_700_000_000_123)) {
        GatewayAction::Send(DiscordPayload::Heartbeat(nonce)) => {
            assert_eq!(nonce, 1_700_000_000_123)
        }
        _ => panic!("no heartbeat was sent"),
    }
    assert!(matches!(VoiceGateway::heartbeat(5), DiscordPayload::Heartbeat(5)));
}

#[test]
fn gateway_ignores_what_is_not_for_its_owner() {
    let ignored = vec![
        DiscordPayload::Hello(Hello { v: 7, heartbeat_interval: 1 }),
        DiscordPayload::Speaking(Speaking { user_id: None, speaking: 0, delay: None, ssrc: 1 }),
        DiscordPayload::Resumed,
        DiscordPayload::ClientDisconnect(ClientDisconnect { user_id: "u".to_string() }),
        DiscordPayload::HeartbeatACK(77),
        DiscordPayload::Heartbeat(77),
        DiscordPayload::Unknown(serde_json::Value::Null),
    ];
    for payload in ignored {
        assert!(matches!(gateway().run(GatewayEvent::Inbound(Ok(payload))), GatewayAction::Ignore));
    }
}

#[test]
fn gateway_stops_when_the_socket_is_closed_or_a_send_fails() {
    let closed = GatewayEvent::Inbound(Err(ReadMessageError::WebsocketClosed));
    assert!(matches!(gateway().run(closed), GatewayAction::Stop));
    assert!(matches!(gateway().run(GatewayEvent::SendFailed), GatewayAction::Stop));
}

#[test]
fn gateway_reports_other_read_errors_and_goes_on() {
    let bad = ReadMessageError::SerializationError("not json".to_string());
    match gateway().run(GatewayEvent::Inbound(Err(bad.clone()))) {
        GatewayAction::Report(e) => assert_eq!(e, bad),
        _ => panic!("the read error was not reported"),
    }
    let broken = ReadMessageError::WebsocketStreamError("reset".to_string());
    match gateway().run(GatewayEvent::Inbound(Err(broken.clone()))) {
        GatewayAction::Report(e) => assert_eq!(e, broken),
        _ => panic!("the read error was not reported"),
    }
}

#[test]
fn gateway_serves_sends_before_heartbeats_before_reads() {
    assert_eq!(first_ready(true, true, true), Some(GatewaySource::Outbound));
    assert_eq!(first_ready(true, false, true), Some(GatewaySource::Outbound));
    assert_eq!(first_ready(false, true, true), Some(GatewaySource::Tick));
    assert_eq!(first_ready(false, true, false), Some(GatewaySource::Tick));
    assert_eq!(first_ready(false, false, true), Some(GatewaySource::Inbound));
    assert_eq!(first_ready(false, false, false), None);
}

#[test]
fn pacer_passes_frames_on_and_ends_with_silence() {
    match pace(PacerEvent::Frame(vec![1, 2, 3])) {
        PacerAction::Submit(UDPMessage::Audio(frame)) => assert_eq!(frame, vec![1, 2, 3]),
        _ => panic!("the frame was not passed on"),
    }
    assert!(matches!(pace(PacerEvent::EndOfTrack), PacerAction::SubmitLast(UDPMessage::Silence)));
    assert!(matches!(pace(PacerEvent::SessionGone), PacerAction::Stop));
    assert!(matches!(pace(PacerEvent::SubmitFailed), PacerAction::Stop));
}

#[test]
fn pacing_constants() {
    assert_eq!(FRAME_INTERVAL_MS, 20);
    assert_eq!(MAILBOX_CAPACITY, 32);
}
