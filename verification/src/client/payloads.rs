//! Commands that a controller sends over the client-facing socket.
//!
//! On the wire a command is one JSON object that holds `guildId`, the tag
//! `op` and the fields of the operation side by side.

use vstd::prelude::*;

verus! {

/// One command, addressed to the player of a guild.
#[derive(Debug, Clone, PartialEq, Eq)]
pub struct ClientPayload {
    pub guild_id: String,
    pub op: Opcode,
}

/// What a command asks for.
#[derive(Debug, Clone, PartialEq, Eq)]
pub enum Opcode {
    VoiceUpdate(VoiceUpdate),
    Play(Play),
    Stop(Stop),
    Pause(Pause),
    Seek(Seek),
    Volume(Volume),
    Filters(Filters),
    Destroy(Destroy),
}

/// The ticket for a voice session: with it a player can be created.
#[derive(Debug, Clone, PartialEq, Eq)]
pub struct VoiceUpdate {
    pub session_id: String,
    pub event: VoiceUpdateEvent,
}

#[derive(Debug, Clone, PartialEq, Eq)]
pub struct VoiceUpdateEvent {
    pub token: String,
    pub guild_id: String,
    /// Host, and port if any, of the voice service's control channel.
    pub endpoint: String,
}

#[derive(Debug, Clone, PartialEq, Eq)]
pub struct Play {
    pub track: String,
    pub start_time: Option<u64>,
    pub end_time: Option<u64>,
    pub volume: Option<i16>,
    pub no_replace: Option<bool>,
    pub pause: Option<bool>,
}

#[derive(Debug, Clone, PartialEq, Eq)]
pub struct Stop {}

#[derive(Debug, Clone, PartialEq, Eq)]
pub struct Pause {
    pub pause: bool,
}

#[derive(Debug, Clone, PartialEq, Eq)]
pub struct Seek {
    /// Milliseconds from the start of the track.
    pub position: u64,
}

#[derive(Debug, Clone, PartialEq, Eq)]
pub struct Volume {
    pub volume: i16,
}

/// A request to change the filter chain. Filter settings are reserved: they
/// are accepted and carried no further than the socket, so nothing of them
/// is held here.
#[derive(Debug, Clone, PartialEq, Eq)]
pub struct Filters {}

#[derive(Debug, Clone, PartialEq, Eq)]
pub struct Destroy {}

} // verus!
