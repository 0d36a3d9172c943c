//! Messages of the voice service's control channel.
//!
//! On the wire each message is an envelope `{"op": <int>, "d": <data>}`.
//! The types here are the decoded messages; [`PayloadKind`] holds the table
//! of opcodes.

use crate::crypto::EncryptionMode;
use vstd::prelude::*;

verus! {

/// `serde_json::Value`: a JSON value, carried along unread.
#[verifier::external_type_specification]
#[verifier::external_body]
pub struct ExJsonValue(serde_json::Value);

/// One message to or from the voice service.
#[derive(Debug)]
pub enum DiscordPayload {
    Identify(Identify),
    SelectProtocol(SelectProtocol),
    Ready(Ready),
    /// Carries the nonce: milliseconds since the epoch when it was sent.
    Heartbeat(u128),
    SessionDescription(SessionDescription),
    Speaking(Speaking),
    /// Echoes the nonce of the heartbeat that it answers.
    HeartbeatACK(u128),
    Resume(Resume),
    Hello(Hello),
    Resumed,
    ClientDisconnect(ClientDisconnect),
    /// A message with an opcode that this library does not know, kept as it
    /// came.
    Unknown(serde_json::Value),
}

#[derive(Debug, Clone, PartialEq, Eq)]
pub struct Identify {
    pub server_id: String,
    pub user_id: String,
    pub session_id: String,
    pub token: String,
}

#[derive(Debug, Clone, PartialEq, Eq)]
pub struct SelectProtocol {
    pub protocol: String,
    pub data: SelectProtocolData,
}

#[derive(Debug, Clone, PartialEq, Eq)]
pub struct SelectProtocolData {
    pub address: String,
    pub port: u16,
    pub mode: EncryptionMode,
}

#[derive(Debug, Clone, PartialEq, Eq)]
pub struct Ready {
    pub ssrc: u32,
    pub ip: String,
    pub port: u16,
    /// The modes that the service offers; names that this library does not
    /// know are already left out.
    pub modes: Vec<EncryptionMode>,
}

#[derive(Debug, Clone, PartialEq, Eq)]
pub struct SessionDescription {
    pub mode: EncryptionMode,
    pub secret_key: [u8; 32],
}

#[derive(Debug, Clone, PartialEq, Eq)]
pub struct Speaking {
    /// Set on messages from the service; never sent.
    pub user_id: Option<String>,
    pub speaking: u8,
    pub delay: Option<u8>,
    pub ssrc: u32,
}

#[derive(Debug, Clone, PartialEq, Eq)]
pub struct HeartbeatACK {
    pub d: u64,
}

#[derive(Debug, Clone, PartialEq, Eq)]
pub struct Resume {
    pub server_id: String,
    pub session_id: String,
    pub token: String,
}

#[derive(Debug, Clone, PartialEq, Eq)]
pub struct Hello {
    pub v: u8,
    /// Milliseconds between two heartbeats.
    pub heartbeat_interval: u64,
}

#[derive(Debug, Clone, PartialEq, Eq)]
pub struct ClientDisconnect {
    pub user_id: String,
}

/// Which message an envelope holds.
#[derive(Debug, Clone, Copy, PartialEq, Eq, Structural)]
pub enum PayloadKind {
    Identify,
    SelectProtocol,
    Ready,
    Heartbeat,
    SessionDescription,
    Speaking,
    HeartbeatACK,
    Resume,
    Hello,
    Resumed,
    ClientDisconnect,
    Unknown,
}

impl PayloadKind {
    /// The opcode of each known kind.
    pub open spec fn spec_opcode(self) -> Option<u8> {
        match self {
            PayloadKind::Identify => Some(0u8),
            PayloadKind::SelectProtocol => Some(1u8),
            PayloadKind::Ready => Some(2u8),
            PayloadKind::Heartbeat => Some(3u8),
            PayloadKind::SessionDescription => Some(4u8),
            PayloadKind::Speaking => Some(5u8),
            PayloadKind::HeartbeatACK => Some(6u8),
            PayloadKind::Resume => Some(7u8),
            PayloadKind::Hello => Some(8u8),
            PayloadKind::Resumed => Some(9u8),
            PayloadKind::ClientDisconnect => Some(13u8),
            PayloadKind::Unknown => None,
        }
    }

    /// The kind that has opcode `op`, or `Unknown` where none has.
    pub open spec fn with_opcode(op: u8) -> PayloadKind {
        if op == 0 {
            PayloadKind::Identify
        } else if op == 1 {
            PayloadKind::SelectProtocol
        } else if op == 2 {
            PayloadKind::Ready
        } else if op == 3 {
            PayloadKind::Heartbeat
        } else if op == 4 {
            PayloadKind::SessionDescription
        } else if op == 5 {
            PayloadKind::Speaking
        } else if op == 6 {
            PayloadKind::HeartbeatACK
        } else if op == 7 {
            PayloadKind::Resume
        } else if op == 8 {
            PayloadKind::Hello
        } else if op == 9 {
            PayloadKind::Resumed
        } else if op == 13 {
            PayloadKind::ClientDisconnect
        } else {
            PayloadKind::Unknown
        }
    }

    /// The kinds that this side sends: only these are ever encoded.
    pub open spec fn is_outbound(self) -> bool {
        self is Identify || self is SelectProtocol || self is Heartbeat || self is Speaking
            || self is Resume
    }

    #[verifier::when_used_as_spec(spec_opcode)]
    pub fn opcode(self) -> (op: Option<u8>)
        ensures
            op == self.spec_opcode(),
    {
        match self {
            PayloadKind::Identify => Some(0),
            PayloadKind::SelectProtocol => Some(1),
            PayloadKind::Ready => Some(2),
            PayloadKind::Heartbeat => Some(3),
            PayloadKind::SessionDescription => Some(4),
            PayloadKind::Speaking => Some(5),
            PayloadKind::HeartbeatACK => Some(6),
            PayloadKind::Resume => Some(7),
            PayloadKind::Hello => Some(8),
            PayloadKind::Resumed => Some(9),
            PayloadKind::ClientDisconnect => Some(13),
            PayloadKind::Unknown => None,
        }
    }

    pub fn from_opcode(op: u8) -> (kind: PayloadKind)
        ensures
            kind == PayloadKind::with_opcode(op),
    {
        match op {
            0 => PayloadKind::Identify,
            1 => PayloadKind::SelectProtocol,
            2 => PayloadKind::Ready,
            3 => PayloadKind::Heartbeat,
            4 => PayloadKind::SessionDescription,
            5 => PayloadKind::Speaking,
            6 => PayloadKind::HeartbeatACK,
            7 => PayloadKind::Resume,
            8 => PayloadKind::Hello,
            9 => PayloadKind::Resumed,
            13 => PayloadKind::ClientDisconnect,
            _ => PayloadKind::Unknown,
        }
    }

    /// Whether this side sends messages of this kind.
    pub fn can_send(self) -> (yes: bool)
        ensures
            yes == self.is_outbound(),
    {
        match self {
            PayloadKind::Identify
            | PayloadKind::SelectProtocol
            | PayloadKind::Heartbeat
            | PayloadKind::Speaking
            | PayloadKind::Resume => true,
            _ => false,
        }
    }

    /// The opcode table reads the same in both directions: a kind is found
    /// again from its opcode, and an opcode from its kind.
    pub proof fn lemma_opcode_round_trip(kind: PayloadKind, op: u8)
        ensures
            kind.spec_opcode() matches Some(o) ==> PayloadKind::with_opcode(o) == kind,
            PayloadKind::with_opcode(op).spec_opcode() matches Some(o) ==> o == op,
            PayloadKind::with_opcode(op) is Unknown <==> !(op <= 9 || op == 13),
    {
    }
}

impl DiscordPayload {
    /// Which message this is.
    pub open spec fn spec_kind(&self) -> PayloadKind {
        match self {
            DiscordPayload::Identify(_) => PayloadKind::Identify,
            DiscordPayload::SelectProtocol(_) => PayloadKind::SelectProtocol,
            DiscordPayload::Ready(_) => PayloadKind::Ready,
            DiscordPayload::Heartbeat(_) => PayloadKind::Heartbeat,
            DiscordPayload::SessionDescription(_) => PayloadKind::SessionDescription,
            DiscordPayload::Speaking(_) => PayloadKind::Speaking,
            DiscordPayload::HeartbeatACK(_) => PayloadKind::HeartbeatACK,
            DiscordPayload::Resume(_) => PayloadKind::Resume,
            DiscordPayload::Hello(_) => PayloadKind::Hello,
            DiscordPayload::Resumed => PayloadKind::Resumed,
            DiscordPayload::ClientDisconnect(_) => PayloadKind::ClientDisconnect,
            DiscordPayload::Unknown(_) => PayloadKind::Unknown,
        }
    }

    #[verifier::when_used_as_spec(spec_kind)]
    pub fn kind(&self) -> (kind: PayloadKind)
        ensures
            kind == self.spec_kind(),
    {
        match self {
            DiscordPayload::Identify(_) => PayloadKind::Identify,
            DiscordPayload::SelectProtocol(_) => PayloadKind::SelectProtocol,
            DiscordPayload::Ready(_) => PayloadKind::Ready,
            DiscordPayload::Heartbeat(_) => PayloadKind::Heartbeat,
            DiscordPayload::SessionDescription(_) => PayloadKind::SessionDescription,
            DiscordPayload::Speaking(_) => PayloadKind::Speaking,
            DiscordPayload::HeartbeatACK(_) => PayloadKind::HeartbeatACK,
            DiscordPayload::Resume(_) => PayloadKind::Resume,
            DiscordPayload::Hello(_) => PayloadKind::Hello,
            DiscordPayload::Resumed => PayloadKind::Resumed,
            DiscordPayload::ClientDisconnect(_) => PayloadKind::ClientDisconnect,
            DiscordPayload::Unknown(_) => PayloadKind::Unknown,
        }
    }

    /// The opcode under which the message travels; `None` for a message of
    /// unknown kind, which keeps whatever opcode it came with.
    pub fn opcode(&self) -> (op: Option<u8>)
        ensures
            op == self.spec_kind().spec_opcode(),
    {
        self.kind().opcode()
    }
}

} // verus!
