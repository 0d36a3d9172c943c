use jukebox::client::payloads::{
    ClientPayload, Destroy, Filters, Opcode, Pause, Play, Seek, Stop, Volume, VoiceUpdate,
    VoiceUpdateEvent,
};
use jukebox::client::player::{Player, PlayerCommand};
use jukebox::client::{Client, ClientAction, ClientError};
use jukebox::config::{
    Configuration, MediaConfiguration, MediaServerConfiguration, ServerConfiguration, DEFAULT_PORT,
};
use jukebox::utils::{frame_data, parse_msg, ReadMessageError};

fn ticket(guild: &str) -> VoiceUpdate {
    VoiceUpdate {
        session_id: format!("session-of-{}", guild),
        event: VoiceUpdateEvent {
            token: format!("token-of-{}", guild),
            guild_id: guild.to_string(),
            endpoint: "voice.example.com".to_string(),
        },
    }
}

fn payload(guild: &str, op: Opcode) -> ClientPayload {
    ClientPayload { guild_id: guild.to_string(), op }
}

fn play(track: &str) -> Opcode {
    Opcode::Play(Play {
        track: track.to_string(),
        start_time: None,
        end_time: None,
        volume: None,
        no_replace: None,
        pause: None,
    })
}

fn client_with(guilds: &[&str]) -> Client {
    let mut client = Client::new("user-1".to_string(), "controller".to_string());
    for guild in guilds {
        client.add_player(Player::new("user-1", ticket(guild)));
    }
    client
}

#[test]
fn new_player_has_its_identity_and_no_settings() {
    let player = Player::new("user-1", ticket("g"));
    assert_eq!(player.user_id(), "user-1");
    assert_eq!(player.guild_id(), "g");
    assert_eq!(player.session_id(), "session-of-g");
    assert_eq!(player.token(), "token-of-g");
    assert_eq!(player.track(), None);
    assert_eq!(player.start_time(), None);
    assert_eq!(player.end_time(), None);
    assert_eq!(player.volume(), None);
    assert_eq!(player.no_replace(), None);
    assert_eq!(player.pause(), None);
}

#[test]
fn player_turns_each_operation_into_its_command() {
    let mut player = Player::new("user-1", ticket("g"));
    assert_eq!(
        player.handle_client_payload(play("song.webm")),
        PlayerCommand::Play("song.webm".to_string())
    );
    assert_eq!(player.handle_client_payload(Opcode::Stop(Stop {})), PlayerCommand::Stop);
    assert_eq!(
        player.handle_client_payload(Opcode::Pause(Pause { pause: true })),
        PlayerCommand::Pause(true)
    );
    assert_eq!(
        player.handle_client_payload(Opcode::Seek(Seek { position: 90_000 })),
        PlayerCommand::Seek(90_000)
    );
    assert_eq!(
        player.handle_client_payload(Opcode::Volume(Volume { volume: -3 })),
        PlayerCommand::Volume(-3)
    );
    assert_eq!(player.handle_client_payload(Opcode::Filters(Filters {})), PlayerCommand::Filters);
    assert_eq!(player.handle_client_payload(Opcode::Destroy(Destroy {})), PlayerCommand::Destroy);
    assert_eq!(
        player.handle_client_payload(Opcode::VoiceUpdate(ticket("g"))),
        PlayerCommand::Nothing
    );
    assert_eq!(player.track(), None);
    assert_eq!(player.volume(), None);
    assert_eq!(player.pause(), None);
}

#[test]
fn new_session_has_no_player() {
    let client = Client::new("user-1".to_string(), "controller".to_string());
    assert_eq!(client.user_id(), "user-1");
    assert_eq!(client.client_name(), "controller");
    assert_eq!(client.player_count(), 0);
    assert!(!client.has_player("a"));
}

#[test]
fn voice_update_asks_for_a_connection() {
    let mut client = client_with(&[]);
    let action = client.handle_payload(payload("a", Opcode::VoiceUpdate(ticket("a"))));
    assert_eq!(action, ClientAction::Connect(ticket("a")));
    assert_eq!(client.player_count(), 0);
}

#[test]
fn a_second_player_for_a_guild_replaces_the_first() {
    let mut client = client_with(&["a", "b"]);
    assert_eq!(client.player_count(), 2);
    let mut renewed = ticket("a");
    renewed.session_id = "later".to_string();
    client.add_player(Player::new("user-1", renewed));
    assert_eq!(client.player_count(), 2);
    assert!(client.has_player("a"));
    assert!(client.has_player("b"));
    assert_eq!(client.close(), vec!["a".to_string(), "b".to_string()]);
}

#[test]
fn commands_reach_the_player_of_their_guild() {
    let mut client = client_with(&["a", "b"]);
    assert_eq!(
        client.send_to_player(payload("b", play("song.webm"))),
        Ok(PlayerCommand::Play("song.webm".to_string()))
    );
    assert_eq!(
        client.handle_payload(payload("a", Opcode::Pause(Pause { pause: false }))),
        ClientAction::Command { guild_id: "a".to_string(), command: PlayerCommand::Pause(false) }
    );
    assert_eq!(client.player_count(), 2);
}

#[test]
fn commands_for_a_guild_without_player_fail() {
    let mut client = client_with(&["a"]);
    let error = client.send_to_player(payload("zz", play("song.webm"))).unwrap_err();
    assert_eq!(error, ClientError::NoPlayer("zz".to_string()));
    assert_eq!(error.message(), "no player found for guild zz");
    assert_eq!(
        client.handle_payload(payload("zz", Opcode::Stop(Stop {}))),
        ClientAction::Notify("no player found for guild zz".to_string())
    );
    assert_eq!(client.player_count(), 1);
}

#[test]
fn destroy_removes_the_player() {
    let mut client = client_with(&["a", "b", "c"]);
    assert_eq!(
        client.send_to_player(payload("b", Opcode::Destroy(Destroy {}))),
        Ok(PlayerCommand::Destroy)
    );
    assert!(!client.has_player("b"));
    assert_eq!(client.player_count(), 2);
    assert_eq!(
        client.send_to_player(payload("b", play("song.webm"))),
        Err(ClientError::NoPlayer("b".to_string()))
    );
    assert_eq!(client.close(), vec!["a".to_string(), "c".to_string()]);
}

#[test]
fn destroy_for_a_guild_without_player_is_in_order() {
    let mut client = client_with(&["a"]);
    assert_eq!(
        client.handle_payload(payload("zz", Opcode::Destroy(Destroy {}))),
        ClientAction::Command { guild_id: "zz".to_string(), command: PlayerCommand::Destroy }
    );
    assert_eq!(client.player_count(), 1);
}

#[test]
fn closing_destroys_every_player_once() {
    let mut client = client_with(&["guild-1", "guild-2"]);
    let destroyed = client.close();
    assert_eq!(destroyed, vec!["guild-1".to_string(), "guild-2".to_string()]);
    assert_eq!(destroyed.len(), 2);
    assert_eq!(client.player_count(), 0);
    assert_eq!(client.close(), Vec::<String>::new());
}

#[test]
fn default_configuration() {
    let configuration = Configuration::default();
    assert_eq!(configuration.server.port, 2333);
    assert_eq!(configuration.server.address, "0.0.0.0");
    assert_eq!(configuration.media.server.password, "youshallnotpass");
    assert_eq!(DEFAULT_PORT, 2333);
    assert_eq!(
        configuration,
        Configuration {
            server: ServerConfiguration::default(),
            media: MediaConfiguration { server: MediaServerConfiguration::default() },
        }
    );
    assert_eq!(MediaConfiguration::default().server.password, "youshallnotpass");
}

#[test]
fn a_read_yields_a_frame_an_error_or_the_end() {
    assert_eq!(frame_data(Some(Ok(vec![1, 2, 3]))), Ok(vec![1, 2, 3]));
    assert_eq!(
        frame_data(Some(Err("connection reset".to_string()))),
        Err(ReadMessageError::WebsocketStreamError("connection reset".to_string()))
    );
    assert_eq!(frame_data(None), Err(ReadMessageError::WebsocketClosed));
}

#[test]
fn a_decoded_message_is_passed_on() {
    assert_eq!(parse_msg(b"17", Some(17u32)), Ok(17));
    assert_eq!(
        parse_msg(b"{\"op\":\"stop\"}", Some(payload("a", Opcode::Stop(Stop {})))),
        Ok(payload("a", Opcode::Stop(Stop {})))
    );
}

#[test]
fn a_frame_that_is_no_message_is_reported_as_text() {
    assert_eq!(
        parse_msg::<u32>(b"not json", None),
        Err(ReadMessageError::SerializationError("not json".to_string()))
    );
    assert_eq!(
        parse_msg::<u32>(&[0x61, 0xff, 0x62], None),
        Err(ReadMessageError::SerializationError("a\u{fffd}b".to_string()))
    );
}
