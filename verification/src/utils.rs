//! Reading one JSON message off a socket.

use vstd::prelude::*;
use vstd::utf8::{decode_utf8, valid_utf8};

verus! {

/// Why no message came out of a read.
#[derive(Debug, Clone, PartialEq, Eq)]
pub enum ReadMessageError {
    /// The frame is not the JSON of a message; holds the frame as text.
    SerializationError(String),
    /// The socket failed; holds what it reported.
    WebsocketStreamError(String),
    /// The socket is closed.
    WebsocketClosed,
}

/// What `String::from_utf8_lossy` makes of a byte string.
pub uninterp spec fn utf8_lossy(bytes: Seq<u8>) -> Seq<char>;

/// Calls `String::from_utf8_lossy` and takes ownership of what it returns.
/// Trusted: the text depends on the bytes alone, and for well-formed UTF-8
/// it is the text that the bytes spell.
#[verifier::external_body]
fn lossy_text(bytes: &[u8]) -> (text: String)
    ensures
        text@ == utf8_lossy(bytes@),
        valid_utf8(bytes@) ==> text@ == decode_utf8(bytes@),
{
    String::from_utf8_lossy(bytes).into_owned()
}

/// The bytes of the frame that a read yielded. `msg` is what the socket
/// handed over: a frame's bytes, the socket's error as text, or nothing
/// where the socket is closed.
pub fn frame_data(msg: Option<Result<Vec<u8>, String>>) -> (r: Result<Vec<u8>, ReadMessageError>)
    ensures
        r == match msg {
            Some(Ok(bytes)) => Ok::<Vec<u8>, ReadMessageError>(bytes),
            Some(Err(e)) => Err(ReadMessageError::WebsocketStreamError(e)),
            None => Err(ReadMessageError::WebsocketClosed),
        },
{
    match msg {
        Some(Ok(bytes)) => Ok(bytes),
        Some(Err(e)) => Err(ReadMessageError::WebsocketStreamError(e)),
        None => Err(ReadMessageError::WebsocketClosed),
    }
}

/// The message in a frame, where `decoded` is what the JSON decoder made of
/// the frame's bytes: the message, or nothing where the bytes are not the
/// JSON of one. The error then holds the frame as text, with the Unicode
/// replacement character wherever the bytes are not UTF-8.
pub fn parse_msg<R>(bytes: &[u8], decoded: Option<R>) -> (r: Result<R, ReadMessageError>)
    ensures
        match decoded {
            Some(message) => r == Ok::<R, ReadMessageError>(message),
            None => r matches Err(ReadMessageError::SerializationError(text)) && text@
                == utf8_lossy(bytes@) && (valid_utf8(bytes@) ==> text@ == decode_utf8(bytes@)),
        },
{
    match decoded {
        Some(message) => Ok(message),
        None => Err(ReadMessageError::SerializationError(lossy_text(bytes))),
    }
}

} // verus!
