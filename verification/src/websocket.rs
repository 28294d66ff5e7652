//! The WebSocket upgrade handshake and relay state machine. A request is an
//! upgrade request when its `connection` header equals `upgrade` and its
//! `upgrade` header equals `websocket`, case-insensitively. The handshake
//! then demands `sec-websocket-version: 13` and a `sec-websocket-key`, and
//! answers `101 Switching Protocols` with the derived accept key. The relay
//! echoes each text frame as a JSON object, echoes close frames, and only
//! observes binary, ping and pong frames; a per-session message counter
//! starts at `1` and wraps at `u64::MAX` to `0`.

use vstd::prelude::*;

use crate::decimal::{decimal_chars, format_u64, parse_decimal, parse_decimal_spec};
use crate::headers::get_header_value;
use crate::http_codec::HttpResponseParts;
use crate::id_generator::next_count;
use crate::json_text::{escape_json_string, escaped_text};
use crate::table::MultiValueTable;
use crate::text::{lower_of, lowercase, str_eq};

verus! {

/// The request asks for a WebSocket upgrade: its `connection` header equals
/// `upgrade` and its `upgrade` header equals `websocket`, both compared
/// lower-cased.
pub open spec fn upgrade_requested(headers: MultiValueTable) -> bool {
    &&& lower_of(headers.value_at("connection"@, 0)) == "upgrade"@
    &&& lower_of(headers.value_at("upgrade"@, 0)) == "websocket"@
}

/// Whether the normalized request headers ask for a WebSocket upgrade.
pub fn is_upgrade_request(request_headers: &MultiValueTable) -> (r: bool)
    ensures
        r == upgrade_requested(*request_headers),
{
    let connection_value = lowercase(get_header_value("connection", 0, request_headers).as_str());
    if !str_eq(connection_value.as_str(), "upgrade") {
        return false;
    }
    let upgrade_value = lowercase(get_header_value("upgrade", 0, request_headers).as_str());
    str_eq(upgrade_value.as_str(), "websocket")
}

#[derive(Debug)]
pub enum WebSocketUpgradeError {
    /// The `sec-websocket-version` header is absent.
    MissingVersionHeader,
    /// The `sec-websocket-version` header is present but is not `13`.
    UnsupportedVersion,
    /// The `sec-websocket-key` header is absent.
    MissingKeyHeader,
}

pub open spec fn version_value(headers: MultiValueTable) -> Seq<char> {
    headers.value_at("sec-websocket-version"@, 0)
}

pub open spec fn key_value(headers: MultiValueTable) -> Seq<char> {
    headers.value_at("sec-websocket-key"@, 0)
}

/// The version header is accepted exactly when it reads as the number 13.
pub open spec fn version_accepted(v: Seq<char>) -> bool {
    parse_decimal_spec(v, u64::MAX as int) == Some(13int)
}

/// The `Sec-WebSocket-Accept` value derived from a `Sec-WebSocket-Key`; the
/// meaning of the name is fixed by the contract of `derive_accept_key_text`
/// below.
pub uninterp spec fn accept_key_of(key: Seq<char>) -> Seq<char>;

/// Relies on `tungstenite::handshake::derive_accept_key`: the SHA-1 of the
/// key concatenated with the RFC 6455 GUID, base64-encoded; the result
/// depends on the key alone.
#[verifier::external_body]
fn derive_accept_key_text(key: &str) -> (r: String)
    ensures
        r@ == accept_key_of(key@),
{
    tungstenite::handshake::derive_accept_key(key.as_bytes())
}

/// Validate a WebSocket handshake against the normalized request headers
/// and derive the accept key. Fails with `MissingVersionHeader` when the
/// version header is absent, `UnsupportedVersion` when it does not read as
/// `13`, and `MissingKeyHeader` when the key header is absent.
pub fn validate_upgrade(request_headers: &MultiValueTable) -> (r: Result<
    String,
    WebSocketUpgradeError,
>)
    ensures
        match r {
            Ok(accept) => version_value(*request_headers).len() > 0 && version_accepted(
                version_value(*request_headers),
            ) && key_value(*request_headers).len() > 0 && accept@ == accept_key_of(
                key_value(*request_headers),
            ),
            Err(WebSocketUpgradeError::MissingVersionHeader) => version_value(
                *request_headers,
            ).len() == 0,
            Err(WebSocketUpgradeError::UnsupportedVersion) => version_value(
                *request_headers,
            ).len() > 0 && !version_accepted(version_value(*request_headers)),
            Err(WebSocketUpgradeError::MissingKeyHeader) => version_value(*request_headers).len()
                > 0 && version_accepted(version_value(*request_headers)) && key_value(
                *request_headers,
            ).len() == 0,
        },
{
    let version = get_header_value("sec-websocket-version", 0, request_headers);
    if version.unicode_len() == 0 {
        return Err(WebSocketUpgradeError::MissingVersionHeader);
    }
    let parsed_version = parse_decimal(version.as_str(), u64::MAX);
    let accepted = match parsed_version {
        Some(v) => v == 13,
        None => false,
    };
    if !accepted {
        return Err(WebSocketUpgradeError::UnsupportedVersion);
    }
    let key = get_header_value("sec-websocket-key", 0, request_headers);
    if key.unicode_len() == 0 {
        return Err(WebSocketUpgradeError::MissingKeyHeader);
    }
    Ok(derive_accept_key_text(key.as_str()))
}

/// The `101 Switching Protocols` response for a validated handshake: the
/// upgrade headers and the accept key, with an empty body.
pub fn build_upgrade_response(accept_key: String) -> (p: HttpResponseParts)
    ensures
        p.status_code == 101,
        crate::headers::pairs_view(p.header_lines@) =~= seq![
            ("connection"@, "upgrade"@),
            ("upgrade"@, "websocket"@),
            ("sec-websocket-accept"@, accept_key@),
        ],
        p.body@ == Seq::<char>::empty(),
{
    let mut header_lines: Vec<(String, String)> = Vec::new();
    header_lines.push((String::from_str("connection"), String::from_str("upgrade")));
    header_lines.push((String::from_str("upgrade"), String::from_str("websocket")));
    header_lines.push((String::from_str("sec-websocket-accept"), accept_key));
    proof {
        assert(crate::headers::pairs_view(header_lines@) =~= seq![
            ("connection"@, "upgrade"@),
            ("upgrade"@, "websocket"@),
            ("sec-websocket-accept"@, accept_key@),
        ]);
    }
    HttpResponseParts { status_code: 101, header_lines, body: String::new() }
}

pub struct WebSocketCloseFrame {
    pub code: u16,
    pub reason: String,
}

pub enum WebSocketInboundMessage {
    Text(String),
    Binary(Vec<u8>),
    Ping(Vec<u8>),
    Pong(Vec<u8>),
    Close(Option<WebSocketCloseFrame>),
}

pub enum WebSocketAction {
    /// Send this text frame back to the client.
    Reply(String),
    /// Echo the close frame (with the peer's code and reason, if any) and
    /// end the session.
    EchoClose(Option<WebSocketCloseFrame>),
    /// Nothing to send; the frame is only observed.
    Ignore,
}

/// The text-frame echo: a JSON object holding the session identity, the
/// message number, the remote endpoint, and the escaped content, with its
/// keys in the serializer's (alphabetical) order.
pub open spec fn echo_message_text(
    request_id: u64,
    message_id: u64,
    remote_ip_address: Seq<char>,
    remote_port: u16,
    content: Seq<char>,
) -> Seq<char> {
    "{\"content\":\""@ + escaped_text(content) + "\",\"messageId\":"@ + decimal_chars(
        message_id as int,
    ) + ",\"remoteIpAddress\":\""@ + escaped_text(remote_ip_address) + "\",\"remotePort\":"@
        + decimal_chars(remote_port as int) + ",\"requestId\":"@ + decimal_chars(request_id as int)
        + "}"@
}

/// Build the JSON echo for one text frame.
pub fn build_echo_text(
    request_id: u64,
    message_id: u64,
    remote_ip_address: &str,
    remote_port: u16,
    content: &str,
) -> (r: String)
    ensures
        r@ == echo_message_text(request_id, message_id, remote_ip_address@, remote_port, content@),
{
    let mut out = String::new();
    out.append("{\"content\":\"");
    let escaped_content = escape_json_string(content);
    out.append(escaped_content.as_str());
    out.append("\",\"messageId\":");
    let message_id_text = format_u64(message_id);
    out.append(message_id_text.as_str());
    out.append(",\"remoteIpAddress\":\"");
    let escaped_ip = escape_json_string(remote_ip_address);
    out.append(escaped_ip.as_str());
    out.append("\",\"remotePort\":");
    let port_text = format_u64(remote_port as u64);
    out.append(port_text.as_str());
    out.append(",\"requestId\":");
    let request_id_text = format_u64(request_id);
    out.append(request_id_text.as_str());
    out.append("}");
    proof {
        assert(out@ =~= echo_message_text(
            request_id,
            message_id,
            remote_ip_address@,
            remote_port,
            content@,
        ));
    }
    out
}

/// One live relay session: its identity, the remote endpoint, and the
/// running message counter, which starts at `1`.
pub struct WebSocketSession {
    pub request_id: u64,
    pub remote_ip_address: String,
    pub remote_port: u16,
    pub message_count: u64,
}

impl WebSocketSession {
    pub fn new(request_id: u64, remote_ip_address: String, remote_port: u16) -> (r:
        WebSocketSession)
        ensures
            r.request_id == request_id,
            r.remote_ip_address == remote_ip_address,
            r.remote_port == remote_port,
            r.message_count == 1,
    {
        WebSocketSession { request_id, remote_ip_address, remote_port, message_count: 1 }
    }

    /// Handle one inbound frame: number it, echo text frames as the JSON
    /// object, echo close frames and end the session, and only observe
    /// binary, ping and pong frames. The counter wraps at `u64::MAX` to
    /// `0`.
    pub fn handle_frame(&mut self, message: WebSocketInboundMessage) -> (r: WebSocketAction)
        ensures
            final(self).request_id == old(self).request_id,
            final(self).remote_ip_address == old(self).remote_ip_address,
            final(self).remote_port == old(self).remote_port,
            final(self).message_count == next_count(old(self).message_count),
            match message {
                WebSocketInboundMessage::Text(content) => r matches WebSocketAction::Reply(reply)
                    && reply@ == echo_message_text(
                    old(self).request_id,
                    old(self).message_count,
                    old(self).remote_ip_address@,
                    old(self).remote_port,
                    content@,
                ),
                WebSocketInboundMessage::Binary(_) => r is Ignore,
                WebSocketInboundMessage::Ping(_) => r is Ignore,
                WebSocketInboundMessage::Pong(_) => r is Ignore,
                WebSocketInboundMessage::Close(frame) => r matches WebSocketAction::EchoClose(
                    echoed,
                ) && echoed == frame,
            },
    {
        let message_id = self.message_count;
        if self.message_count == u64::MAX {
            self.message_count = 0;
        } else {
            self.message_count = self.message_count + 1;
        }
        match message {
            WebSocketInboundMessage::Text(content) => {
                let reply = build_echo_text(
                    self.request_id,
                    message_id,
                    self.remote_ip_address.as_str(),
                    self.remote_port,
                    content.as_str(),
                );
                WebSocketAction::Reply(reply)
            },
            WebSocketInboundMessage::Binary(_) => WebSocketAction::Ignore,
            WebSocketInboundMessage::Ping(_) => WebSocketAction::Ignore,
            WebSocketInboundMessage::Pong(_) => WebSocketAction::Ignore,
            WebSocketInboundMessage::Close(frame) => WebSocketAction::EchoClose(frame),
        }
    }
}

} // verus!
