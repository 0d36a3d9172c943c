//! One controller's session: its players, one per guild, and the routing of
//! its commands to them.

pub mod payloads;
pub mod player;

use payloads::{ClientPayload, Opcode, VoiceUpdate};
use player::{command_for, Player, PlayerCommand, PlayerView};
use crate::text::str_eq;
use vstd::prelude::*;
use vstd::string::StringExecFns;

verus! {

/// Why a command reached no player.
#[derive(Debug, Clone, PartialEq, Eq)]
pub enum ClientError {
    /// The guild that the command names has no player.
    NoPlayer(String),
}

impl ClientError {
    /// The text that the controller is shown.
    pub open spec fn spec_message(&self) -> Seq<char> {
        match self {
            ClientError::NoPlayer(guild_id) => "no player found for guild "@ + guild_id@,
        }
    }

    /// The text that the controller is shown.
    pub fn message(&self) -> (text: String)
        ensures
            text@ == self.spec_message(),
    {
        match self {
            ClientError::NoPlayer(guild_id) => {
                let mut text = String::from_str("no player found for guild ");
                text.append(guild_id.as_str());
                text
            },
        }
    }
}

/// What the session asks of the program around it in answer to a command.
#[derive(Debug, Clone, PartialEq, Eq)]
pub enum ClientAction {
    /// Open the voice session that the update describes and, once it
    /// stands, hand its player to [`Client::add_player`].
    Connect(VoiceUpdate),
    /// Carry out `command` on the voice session of `guild_id`. Where the
    /// command is `Destroy` the player is already gone, and the voice
    /// session, if there is one, is to be torn down.
    Command { guild_id: String, command: PlayerCommand },
    /// Tell the controller that its command could not be delivered.
    Notify(String),
}

/// Where in `players` the player of `guild_id` stands, if it has one.
pub open spec fn position_of(players: Seq<PlayerView>, guild_id: Seq<char>) -> Option<int> {
    if exists|i: int| 0 <= i < players.len() && players[i].guild_id == guild_id {
        Some(choose|i: int| 0 <= i < players.len() && players[i].guild_id == guild_id)
    } else {
        None
    }
}

/// No two of `players` belong to the same guild.
pub open spec fn one_per_guild(players: Seq<PlayerView>) -> bool {
    forall|i: int, j: int|
        0 <= i < j < players.len() ==> players[i].guild_id != players[j].guild_id
}

/// What a session holds.
pub struct ClientView {
    pub user_id: Seq<char>,
    pub client_name: Seq<char>,
    /// The players, oldest first.
    pub players: Seq<PlayerView>,
}

/// The session of one controller.
#[derive(Debug)]
pub struct Client {
    user_id: String,
    client_name: String,
    players: Vec<Player>,
}

impl View for Client {
    type V = ClientView;

    closed spec fn view(&self) -> ClientView {
        ClientView {
            user_id: self.user_id@,
            client_name: self.client_name@,
            players: self.players@.map_values(|player: Player| player@),
        }
    }
}

impl Client {
    /// A session never holds two players for one guild.
    pub open spec fn wf(&self) -> bool {
        one_per_guild(self@.players)
    }

    /// The session of the controller `user_id`, without any player.
    pub fn new(user_id: String, client_name: String) -> (client: Client)
        ensures
            client.wf(),
            client@ == (ClientView {
                user_id: user_id@,
                client_name: client_name@,
                players: Seq::empty(),
            }),
    {
        let client = Client { user_id, client_name, players: Vec::new() };
        assert(client@.players =~= Seq::empty());
        client
    }

    pub fn user_id(&self) -> (id: &str)
        ensures
            id@ == self@.user_id,
    {
        self.user_id.as_str()
    }

    pub fn client_name(&self) -> (name: &str)
        ensures
            name@ == self@.client_name,
    {
        self.client_name.as_str()
    }

    /// How many players the session holds.
    pub fn player_count(&self) -> (count: usize)
        ensures
            count == self@.players.len(),
    {
        self.players.len()
    }

    fn find(&self, guild_id: &str) -> (at: Option<usize>)
        requires
            self.wf(),
        ensures
            match at {
                Some(i) => position_of(self@.players, guild_id@) == Some(i as int) && i
                    < self.players@.len(),
                None => position_of(self@.players, guild_id@) is None,
            },
    {
        let mut i: usize = 0;
        while i < self.players.len()
            invariant
                i <= self.players@.len(),
                self.wf(),
                forall|j: int| 0 <= j < i ==> self@.players[j].guild_id != guild_id@,
            decreases self.players@.len() - i,
        {
            if str_eq(self.players[i].guild_id().as_str(), guild_id) {
                proof {
                    let players = self@.players;
                    assert(players[i as int].guild_id == guild_id@);
                    let c = choose|c: int|
                        0 <= c < players.len() && players[c].guild_id == guild_id@;
                    assert(c == i);
                }
                return Some(i);
            }
            i += 1;
        }
        None
    }

    /// Whether `guild_id` has a player.
    pub fn has_player(&self, guild_id: &str) -> (yes: bool)
        requires
            self.wf(),
        ensures
            yes == position_of(self@.players, guild_id@).is_some(),
    {
        self.find(guild_id).is_some()
    }

    /// Takes `player` in. A player that the same guild had before is
    /// replaced and dropped; a new guild's player comes last.
    pub fn add_player(&mut self, player: Player)
        requires
            old(self).wf(),
        ensures
            final(self).wf(),
            final(self)@.user_id == old(self)@.user_id,
            final(self)@.client_name == old(self)@.client_name,
            final(self)@.players == match position_of(old(self)@.players, player@.guild_id) {
                Some(i) => old(self)@.players.update(i, player@),
                None => old(self)@.players.push(player@),
            },
    {
        let guild_id = player.guild_id();
        match self.find(guild_id.as_str()) {
            Some(i) => {
                self.players[i] = player;
                assert(self@.players =~= old(self)@.players.update(i as int, player@));
            },
            None => {
                self.players.push(player);
                assert(self@.players =~= old(self)@.players.push(player@));
            },
        }
    }

    /// Delivers one command to the player of its guild and returns what the
    /// player asks of its voice session. `Destroy` removes the player, and
    /// is in order for a guild without one; any other command fails for
    /// such a guild.
    pub fn send_to_player(&mut self, client_payload: ClientPayload) -> (r: Result<
        PlayerCommand,
        ClientError,
    >)
        requires
            old(self).wf(),
        ensures
            final(self).wf(),
            final(self)@.user_id == old(self)@.user_id,
            final(self)@.client_name == old(self)@.client_name,
            final(self)@.players == match (
                client_payload.op,
                position_of(old(self)@.players, client_payload.guild_id@),
            ) {
                (Opcode::Destroy(_), Some(i)) => old(self)@.players.remove(i),
                _ => old(self)@.players,
            },
            r == if client_payload.op is Destroy || position_of(
                old(self)@.players,
                client_payload.guild_id@,
            ) is Some {
                Ok::<PlayerCommand, ClientError>(command_for(client_payload.op))
            } else {
                Err(ClientError::NoPlayer(client_payload.guild_id))
            },
    {
        let at = self.find(client_payload.guild_id.as_str());
        if let Opcode::Destroy(_) = client_payload.op {
            if let Some(i) = at {
                self.players.remove(i);
                assert(self@.players =~= old(self)@.players.remove(i as int));
            }
            return Ok(PlayerCommand::Destroy);
        }
        match at {
            None => Err(ClientError::NoPlayer(client_payload.guild_id)),
            Some(i) => {
                let ghost before = self@.players;
                let command = self.players[i].handle_client_payload(client_payload.op);
                assert(self@.players =~= before);
                Ok(command)
            },
        }
    }

    /// Decides what one command from the controller calls for.
    pub fn handle_payload(&mut self, payload: ClientPayload) -> (action: ClientAction)
        requires
            old(self).wf(),
        ensures
            final(self).wf(),
            final(self)@.user_id == old(self)@.user_id,
            final(self)@.client_name == old(self)@.client_name,
            final(self)@.players == match (
                payload.op,
                position_of(old(self)@.players, payload.guild_id@),
            ) {
                (Opcode::Destroy(_), Some(i)) => old(self)@.players.remove(i),
                _ => old(self)@.players,
            },
            match payload.op {
                Opcode::VoiceUpdate(voice_update) => action == ClientAction::Connect(voice_update),
                op => if op is Destroy || position_of(old(self)@.players, payload.guild_id@)
                    is Some {
                    action == (ClientAction::Command {
                        guild_id: payload.guild_id,
                        command: command_for(op),
                    })
                } else {
                    action matches ClientAction::Notify(text) && text@ == ClientError::NoPlayer(
                        payload.guild_id,
                    ).spec_message()
                },
            },
    {
        match payload.op {
            Opcode::VoiceUpdate(voice_update) => ClientAction::Connect(voice_update),
            _ => {
                let guild_id = payload.guild_id.clone();
                match self.send_to_player(payload) {
                    Ok(command) => ClientAction::Command { guild_id, command },
                    Err(e) => ClientAction::Notify(e.message()),
                }
            },
        }
    }

    /// Ends the session: every player is destroyed. Returns the guilds whose
    /// players went, oldest first, one entry for each player.
    pub fn close(&mut self) -> (destroyed: Vec<String>)
        requires
            old(self).wf(),
        ensures
            final(self).wf(),
            final(self)@.user_id == old(self)@.user_id,
            final(self)@.client_name == old(self)@.client_name,
            final(self)@.players.len() == 0,
            destroyed@.len() == old(self)@.players.len(),
            forall|i: int|
                0 <= i < destroyed@.len() ==> (#[trigger] destroyed@[i])@ == old(
                    self,
                )@.players[i].guild_id,
    {
        let mut destroyed: Vec<String> = Vec::new();
        let mut i: usize = 0;
        while i < self.players.len()
            invariant
                i <= self.players@.len(),
                *self == *old(self),
                destroyed@.len() == i,
                forall|j: int|
                    0 <= j < i ==> (#[trigger] destroyed@[j])@ == self@.players[j].guild_id,
            decreases self.players@.len() - i,
        {
            destroyed.push(self.players[i].guild_id());
            i += 1;
        }
        self.players.clear();
        assert(self@.players =~= Seq::empty());
        destroyed
    }
}

} // verus!
