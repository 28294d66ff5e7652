//! A connection-handling gateway library: it models and verifies the logic of
//! a server that terminates TCP/TLS/HTTP, converts each inbound request into a
//! canonical descriptor for a host process reachable over a line-oriented side
//! channel, and reconstructs HTTP responses from the host's correlated replies.
//!
//! The modules here hold the verified core: argument and configuration
//! handling, the request/response codec, the side-channel line protocol, the
//! WebSocket handshake and relay state machine, and TLS credential selection.
//! The surrounding process (sockets, streams, threads) lives outside this
//! crate and exchanges plain values with it.

pub mod arguments_parser;
pub mod configuration;
pub mod decimal;
pub mod headers;
pub mod http_codec;
pub mod id_generator;
pub mod ipc;
pub mod json_text;
pub mod query;
pub mod table;
pub mod text;
pub mod tls;
pub mod websocket;

use vstd::prelude::*;

verus! {

} // verus!
