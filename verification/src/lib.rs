//! Core of an audio relay node: the voice handshake and its control channel,
//! RTP packetisation with the three XSalsa20-Poly1305 nonce layouts, and
//! streaming extraction of Opus frames from WebM and Ogg containers.
//!
//! Everything here is free of I/O. Sockets, timers and tasks belong to the
//! program around this library, which feeds it bytes and events and carries
//! out the actions it answers with.

pub mod endian;
pub mod text;
pub mod utils;
pub mod crypto;
pub mod voice;
pub mod client;
pub mod config;
pub mod webm_parse;
pub mod opus_parse;
pub mod container;
