use jukebox::crypto::EncryptionMode;
use jukebox::voice::payloads::{
    ClientDisconnect, DiscordPayload, HeartbeatACK, Hello, Identify, PayloadKind, Ready, Resume,
    SelectProtocol, SelectProtocolData, SessionDescription, Speaking,
};

#[test]
fn opcodes_of_the_known_kinds() {
    let table = [
        (PayloadKind::Identify, 0),
        (PayloadKind::SelectProtocol, 1),
        (PayloadKind::Ready, 2),
        (PayloadKind::Heartbeat, 3),
        (PayloadKind::SessionDescription, 4),
        (PayloadKind::Speaking, 5),
        (PayloadKind::HeartbeatACK, 6),
        (PayloadKind::Resume, 7),
        (PayloadKind::Hello, 8),
        (PayloadKind::Resumed, 9),
        (PayloadKind::ClientDisconnect, 13),
    ];
    for (kind, op) in table {
        assert_eq!(kind.opcode(), Some(op));
        assert_eq!(PayloadKind::from_opcode(op), kind);
    }
    assert_eq!(PayloadKind::Unknown.opcode(), None);
}

#[test]
fn other_opcodes_are_unknown() {
    for op in 0..=255u8 {
        let known = op <= 9 || op == 13;
        assert_eq!(PayloadKind::from_opcode(op) != PayloadKind::Unknown, known, "opcode {}", op);
    }
}

#[test]
fn only_five_kinds_are_sent() {
    let sent = [
        PayloadKind::Identify,
        PayloadKind::SelectProtocol,
        PayloadKind::Heartbeat,
        PayloadKind::Speaking,
        PayloadKind::Resume,
    ];
    for op in 0..=255u8 {
        let kind = PayloadKind::from_opcode(op);
        assert_eq!(kind.can_send(), sent.contains(&kind));
    }
}

#[test]
fn payloads_know_their_kind_and_opcode() {
    let text = || "x".to_string();
    let payloads = vec![
        (
            DiscordPayload::Identify(Identify {
                server_id: text(),
                user_id: text(),
                session_id: text(),
                token: text(),
            }),
            PayloadKind::Identify,
        ),
        (
            DiscordPayload::SelectProtocol(SelectProtocol {
                protocol: text(),
                data: SelectProtocolData {
                    address: text(),
                    port: 1,
                    mode: EncryptionMode::XSalsa20Poly1305,
                },
            }),
            PayloadKind::SelectProtocol,
        ),
        (
            DiscordPayload::Ready(Ready { ssrc: 1, ip: text(), port: 2, modes: Vec::new() }),
            PayloadKind::Ready,
        ),
        (DiscordPayload::Heartbeat(1), PayloadKind::Heartbeat),
        (
            DiscordPayload::SessionDescription(SessionDescription {
                mode: EncryptionMode::XSalsa20Poly1305Suffix,
                secret_key: [0; 32],
            }),
            PayloadKind::SessionDescription,
        ),
        (
            DiscordPayload::Speaking(Speaking { user_id: None, speaking: 1, delay: None, ssrc: 1 }),
            PayloadKind::Speaking,
        ),
        (DiscordPayload::HeartbeatACK(1), PayloadKind::HeartbeatACK),
        (
            DiscordPayload::Resume(Resume { server_id: text(), session_id: text(), token: text() }),
            PayloadKind::Resume,
        ),
        (DiscordPayload::Hello(Hello { v: 7, heartbeat_interval: 9 }), PayloadKind::Hello),
        (DiscordPayload::Resumed, PayloadKind::Resumed),
        (
            DiscordPayload::ClientDisconnect(ClientDisconnect { user_id: text() }),
            PayloadKind::ClientDisconnect,
        ),
        (DiscordPayload::Unknown(serde_json::Value::Bool(true)), PayloadKind::Unknown),
    ];
    for (payload, kind) in payloads {
        assert_eq!(payload.kind(), kind);
        assert_eq!(payload.opcode(), kind.opcode());
    }
}

#[test]
fn heartbeat_ack_holds_its_nonce() {
    assert_eq!(HeartbeatACK { d: 5 }.d, 5);
}
