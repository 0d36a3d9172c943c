//! The player of one guild.

use super::payloads::{Opcode, VoiceUpdate};
use std::time::Duration;
use vstd::prelude::*;

verus! {

/// What a player asks of its voice session in answer to a command.
#[derive(Debug, Clone, PartialEq, Eq)]
pub enum PlayerCommand {
    /// Start playing the track at this path.
    Play(String),
    Stop,
    Pause(bool),
    /// Continue at this position, in milliseconds.
    Seek(u64),
    Volume(i16),
    Filters,
    /// End the session; the player is of no more use.
    Destroy,
    /// The command asks nothing of a running session.
    Nothing,
}

/// The command that an operation turns into.
pub open spec fn command_for(op: Opcode) -> PlayerCommand {
    match op {
        Opcode::VoiceUpdate(_) => PlayerCommand::Nothing,
        Opcode::Play(play) => PlayerCommand::Play(play.track),
        Opcode::Stop(_) => PlayerCommand::Stop,
        Opcode::Pause(pause) => PlayerCommand::Pause(pause.pause),
        Opcode::Seek(seek) => PlayerCommand::Seek(seek.position),
        Opcode::Volume(volume) => PlayerCommand::Volume(volume.volume),
        Opcode::Filters(_) => PlayerCommand::Filters,
        Opcode::Destroy(_) => PlayerCommand::Destroy,
    }
}

/// What a player holds.
pub struct PlayerView {
    pub user_id: Seq<char>,
    pub guild_id: Seq<char>,
    pub session_id: Seq<char>,
    pub token: Seq<char>,
    pub track: Option<Seq<char>>,
    pub start_time: Option<Duration>,
    pub end_time: Option<Duration>,
    pub volume: Option<i16>,
    pub no_replace: Option<bool>,
    pub pause: Option<bool>,
}

/// A player as it is created: an identity, and no setting yet.
pub open spec fn fresh_player(
    user_id: Seq<char>,
    guild_id: Seq<char>,
    session_id: Seq<char>,
    token: Seq<char>,
) -> PlayerView {
    PlayerView {
        user_id,
        guild_id,
        session_id,
        token,
        track: None,
        start_time: None,
        end_time: None,
        volume: None,
        no_replace: None,
        pause: None,
    }
}

/// The player of one guild: the identity under which its voice session
/// runs, and the playback settings, none of which is set until a track has
/// been loaded.
#[derive(Debug)]
pub struct Player {
    user_id: String,
    guild_id: String,
    session_id: String,
    token: String,
    track: Option<String>,
    start_time: Option<Duration>,
    end_time: Option<Duration>,
    volume: Option<i16>,
    no_replace: Option<bool>,
    pause: Option<bool>,
}

impl View for Player {
    type V = PlayerView;

    closed spec fn view(&self) -> PlayerView {
        PlayerView {
            user_id: self.user_id@,
            guild_id: self.guild_id@,
            session_id: self.session_id@,
            token: self.token@,
            track: match self.track {
                Some(track) => Some(track@),
                None => None,
            },
            start_time: self.start_time,
            end_time: self.end_time,
            volume: self.volume,
            no_replace: self.no_replace,
            pause: self.pause,
        }
    }
}

impl Player {
    /// The player for the guild and session that `voice_update` names.
    pub fn new(user_id: &str, voice_update: VoiceUpdate) -> (player: Player)
        ensures
            player@ == fresh_player(
                user_id@,
                voice_update.event.guild_id@,
                voice_update.session_id@,
                voice_update.event.token@,
            ),
    {
        Player {
            user_id: user_id.to_owned(),
            guild_id: voice_update.event.guild_id,
            session_id: voice_update.session_id,
            token: voice_update.event.token,
            track: None,
            start_time: None,
            end_time: None,
            volume: None,
            no_replace: None,
            pause: None,
        }
    }

    /// Turns one operation into the command for the voice session. The
    /// player notes nothing of the operation.
    pub fn handle_client_payload(&mut self, op: Opcode) -> (command: PlayerCommand)
        ensures
            command == command_for(op),
            *final(self) == *old(self),
    {
        match op {
            Opcode::VoiceUpdate(_) => PlayerCommand::Nothing,
            Opcode::Play(play) => PlayerCommand::Play(play.track),
            Opcode::Stop(_) => PlayerCommand::Stop,
            Opcode::Pause(pause) => PlayerCommand::Pause(pause.pause),
            Opcode::Seek(seek) => PlayerCommand::Seek(seek.position),
            Opcode::Volume(volume) => PlayerCommand::Volume(volume.volume),
            Opcode::Filters(_) => PlayerCommand::Filters,
            Opcode::Destroy(_) => PlayerCommand::Destroy,
        }
    }

    pub fn user_id(&self) -> (id: &str)
        ensures
            id@ == self@.user_id,
    {
        self.user_id.as_str()
    }

    pub fn guild_id(&self) -> (id: String)
        ensures
            id@ == self@.guild_id,
    {
        self.guild_id.clone()
    }

    pub fn session_id(&self) -> (id: String)
        ensures
            id@ == self@.session_id,
    {
        self.session_id.clone()
    }

    pub fn token(&self) -> (token: String)
        ensures
            token@ == self@.token,
    {
        self.token.clone()
    }

    pub fn track(&self) -> (track: Option<String>)
        ensures
            match track {
                Some(track) => self@.track == Some(track@),
                None => self@.track is None,
            },
    {
        self.track.clone()
    }

    pub fn start_time(&self) -> (time: Option<Duration>)
        ensures
            time == self@.start_time,
    {
        self.start_time
    }

    pub fn end_time(&self) -> (time: Option<Duration>)
        ensures
            time == self@.end_time,
    {
        self.end_time
    }

    pub fn volume(&self) -> (volume: Option<i16>)
        ensures
            volume == self@.volume,
    {
        self.volume
    }

    pub fn no_replace(&self) -> (no_replace: Option<bool>)
        ensures
            no_replace == self@.no_replace,
    {
        self.no_replace
    }

    pub fn pause(&self) -> (pause: Option<bool>)
        ensures
            pause == self@.pause,
    {
        self.pause
    }
}

} // verus!
