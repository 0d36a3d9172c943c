//! The control channel to the voice service: where to connect, what to say
//! first, and what to do with each thing that happens afterwards.

use super::payloads::{DiscordPayload, Identify};
use super::VoiceError;
use crate::client::payloads::VoiceUpdate;
use crate::utils::ReadMessageError;
use vstd::prelude::*;
use vstd::string::StringExecFns;

verus! {


/// `url::ParseError`: why a text is not a URL, carried along unread.
#[verifier::external_type_specification]
#[verifier::external_body]
pub struct ExUrlParseError(url::ParseError);

/// What `url::Url::parse` makes of a text: the URL in its normal form, or
/// `None` where the text is not a URL.
pub uninterp spec fn url_parsed(input: Seq<char>) -> Option<Seq<char>>;

/// Calls `url::Url::parse` and turns the URL back into its text. Trusted:
/// the outcome depends on the input alone, so it is named [`url_parsed`].
#[verifier::external_body]
fn parse_url(input: &str) -> (r: Result<String, url::ParseError>)
    ensures
        match r {
            Ok(url) => url_parsed(input@) == Some(url@),
            Err(_) => url_parsed(input@) is None,
        },
{
    match url::Url::parse(input) {
        Ok(url) => Ok(url.into()),
        Err(e) => Err(e),
    }
}

/// The text from which the URL of the control channel is parsed.
pub open spec fn gateway_url_text(endpoint: Seq<char>) -> Seq<char> {
    "wss://"@ + endpoint + "?v=7"@
}

/// The text from which the URL of the control channel is parsed: the
/// endpoint as a secure WebSocket address that asks for version 7.
pub fn gateway_address(endpoint: &str) -> (text: String)
    ensures
        text@ == gateway_url_text(endpoint@),
{
    let mut text = String::from_str("wss://");
    text.append(endpoint);
    text.append("?v=7");
    text
}

/// The URL of the control channel at `endpoint`, or the reason why
/// `endpoint` does not give one.
pub fn gateway_url(endpoint: &str) -> (r: Result<String, VoiceError>)
    ensures
        match r {
            Ok(url) => url_parsed(gateway_url_text(endpoint@)) == Some(url@),
            Err(e) => e is InvalidEndpoint && url_parsed(gateway_url_text(endpoint@)) is None,
        },
{
    let text = gateway_address(endpoint);
    match parse_url(text.as_str()) {
        Ok(url) => Ok(url),
        Err(e) => Err(VoiceError::InvalidEndpoint(e)),
    }
}

/// What the gateway knows of its session.
pub struct VoiceGatewayView {
    pub user_id: Seq<char>,
    pub guild_id: Seq<char>,
    pub endpoint: Seq<char>,
    pub session_id: Seq<char>,
    /// Milliseconds between two heartbeats.
    pub heartbeat_interval: u64,
}

/// The control channel of one session, once the voice service has said
/// Hello.
#[derive(Debug)]
pub struct VoiceGateway {
    user_id: String,
    guild_id: String,
    endpoint: String,
    session_id: String,
    heartbeat_interval: u64,
}

impl View for VoiceGateway {
    type V = VoiceGatewayView;

    closed spec fn view(&self) -> VoiceGatewayView {
        VoiceGatewayView {
            user_id: self.user_id@,
            guild_id: self.guild_id@,
            endpoint: self.endpoint@,
            session_id: self.session_id@,
            heartbeat_interval: self.heartbeat_interval,
        }
    }
}

/// Something that the gateway's loop has to deal with.
#[derive(Debug)]
pub enum GatewayEvent {
    /// The session's owner wants this sent, or, with `None`, is gone.
    Outbound(Option<DiscordPayload>),
    /// A heartbeat is due; holds the time, in milliseconds since the epoch.
    Tick(u128),
    /// A read from the socket has ended.
    Inbound(Result<DiscordPayload, ReadMessageError>),
    /// The last send failed.
    SendFailed,
}

/// What the gateway's loop does next.
#[derive(Debug)]
pub enum GatewayAction {
    /// Send this to the voice service.
    Send(DiscordPayload),
    /// Hand this to the session's owner, and read nothing more until it is
    /// taken.
    Forward(DiscordPayload),
    /// Nothing to do.
    Ignore,
    /// Report the read error and go on.
    Report(ReadMessageError),
    /// Stop the heartbeat and leave the loop.
    Stop,
}

/// One of the three things that the gateway's loop waits for.
#[derive(Debug, Clone, Copy, PartialEq, Eq, Structural)]
pub enum GatewaySource {
    Outbound,
    Tick,
    Inbound,
}

/// Which source is served when several are ready at once: a message to send
/// goes before a heartbeat, and a heartbeat before a read.
pub fn first_ready(outbound: bool, tick: bool, inbound: bool) -> (source: Option<GatewaySource>)
    ensures
        source == if outbound {
            Some(GatewaySource::Outbound)
        } else if tick {
            Some(GatewaySource::Tick)
        } else if inbound {
            Some(GatewaySource::Inbound)
        } else {
            None
        },
{
    if outbound {
        Some(GatewaySource::Outbound)
    } else if tick {
        Some(GatewaySource::Tick)
    } else if inbound {
        Some(GatewaySource::Inbound)
    } else {
        None
    }
}

impl VoiceGateway {
    /// Opens the session on a socket that has just been connected. `first`
    /// is the first read from it, which must be Hello. Returns the gateway
    /// and the Identify message, which is to be sent before anything else.
    pub fn connect(
        user_id: String,
        voice_update: VoiceUpdate,
        first: Result<DiscordPayload, ReadMessageError>,
    ) -> (r: Result<(VoiceGateway, DiscordPayload), VoiceError>)
        ensures
            match first {
                Ok(DiscordPayload::Hello(hello)) => {
                    &&& r matches Ok((gateway, DiscordPayload::Identify(identify)))
                    &&& gateway@ == (VoiceGatewayView {
                        user_id: user_id@,
                        guild_id: voice_update.event.guild_id@,
                        endpoint: voice_update.event.endpoint@,
                        session_id: voice_update.session_id@,
                        heartbeat_interval: hello.heartbeat_interval,
                    })
                    &&& identify.server_id@ == voice_update.event.guild_id@
                    &&& identify.user_id@ == user_id@
                    &&& identify.session_id@ == voice_update.session_id@
                    &&& identify.token@ == voice_update.event.token@
                },
                Ok(_) => r matches Err(VoiceError::UnexpectedProtocolError(text)) && text@
                    == "first message was not Hello"@,
                Err(e) => r matches Err(VoiceError::InvalidPayloadError(cause)) && cause == e,
            },
    {
        let hello = match first {
            Ok(DiscordPayload::Hello(hello)) => hello,
            Ok(_) => {
                return Err(
                    VoiceError::UnexpectedProtocolError(
                        String::from_str("first message was not Hello"),
                    ),
                );
            },
            Err(e) => {
                return Err(VoiceError::InvalidPayloadError(e));
            },
        };
        let gateway = VoiceGateway {
            user_id,
            guild_id: voice_update.event.guild_id,
            endpoint: voice_update.event.endpoint,
            session_id: voice_update.session_id,
            heartbeat_interval: hello.heartbeat_interval,
        };
        let identify = gateway.identify(voice_update.event.token);
        Ok((gateway, identify))
    }

    /// Milliseconds between two heartbeats, as the voice service asked.
    pub fn heartbeat_interval(&self) -> (millis: u64)
        ensures
            millis == self@.heartbeat_interval,
    {
        self.heartbeat_interval
    }

    pub fn user_id(&self) -> (id: &str)
        ensures
            id@ == self@.user_id,
    {
        self.user_id.as_str()
    }

    pub fn guild_id(&self) -> (id: &str)
        ensures
            id@ == self@.guild_id,
    {
        self.guild_id.as_str()
    }

    pub fn endpoint(&self) -> (endpoint: &str)
        ensures
            endpoint@ == self@.endpoint,
    {
        self.endpoint.as_str()
    }

    pub fn session_id(&self) -> (id: &str)
        ensures
            id@ == self@.session_id,
    {
        self.session_id.as_str()
    }

    /// The message that introduces this session to the voice service.
    pub fn identify(&self, token: String) -> (payload: DiscordPayload)
        ensures
            payload matches DiscordPayload::Identify(identify) && {
                &&& identify.server_id@ == self@.guild_id
                &&& identify.user_id@ == self@.user_id
                &&& identify.session_id@ == self@.session_id
                &&& identify.token == token
            },
    {
        DiscordPayload::Identify(
            Identify {
                server_id: self.guild_id.clone(),
                user_id: self.user_id.clone(),
                session_id: self.session_id.clone(),
                token,
            },
        )
    }

    /// The heartbeat for the time `now`, in milliseconds since the epoch.
    pub fn heartbeat(now: u128) -> (payload: DiscordPayload)
        ensures
            payload == DiscordPayload::Heartbeat(now),
    {
        DiscordPayload::Heartbeat(now)
    }

    /// One turn of the gateway's loop: what to do about `event`.
    ///
    /// What the owner wants sent is sent as it is, and a heartbeat goes out
    /// on every tick. Of what the voice service sends, Ready and
    /// SessionDescription go to the owner and everything else is ignored.
    /// The loop ends when the owner is gone, when the socket is closed and
    /// when a send fails; any other read error is reported and the loop goes
    /// on.
    pub fn run(&self, event: GatewayEvent) -> (action: GatewayAction)
        ensures
            action == match event {
                GatewayEvent::Outbound(Some(payload)) => GatewayAction::Send(payload),
                GatewayEvent::Outbound(None) => GatewayAction::Stop,
                GatewayEvent::Tick(now) => GatewayAction::Send(DiscordPayload::Heartbeat(now)),
                GatewayEvent::Inbound(Ok(payload)) => if payload is Ready || payload
                    is SessionDescription {
                    GatewayAction::Forward(payload)
                } else {
                    GatewayAction::Ignore
                },
                GatewayEvent::Inbound(Err(ReadMessageError::WebsocketClosed)) => GatewayAction::Stop,
                GatewayEvent::Inbound(Err(e)) => GatewayAction::Report(e),
                GatewayEvent::SendFailed => GatewayAction::Stop,
            },
    {
        match event {
            GatewayEvent::Outbound(Some(payload)) => GatewayAction::Send(payload),
            GatewayEvent::Outbound(None) => GatewayAction::Stop,
            GatewayEvent::Tick(now) => GatewayAction::Send(VoiceGateway::heartbeat(now)),
            GatewayEvent::Inbound(Ok(payload)) => match payload {
                DiscordPayload::Ready(_) => GatewayAction::Forward(payload),
                DiscordPayload::SessionDescription(_) => GatewayAction::Forward(payload),
                _ => GatewayAction::Ignore,
            },
            GatewayEvent::Inbound(Err(e)) => match e {
                ReadMessageError::WebsocketClosed => GatewayAction::Stop,
                _ => GatewayAction::Report(e),
            },
            GatewayEvent::SendFailed => GatewayAction::Stop,
        }
    }
}

} // verus!
