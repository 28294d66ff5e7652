use volcano::headers::to_header_table;
use volcano::ipc::{filter_message, frame_line, parse_inbound_line};
use volcano::json_text::escape_json_string;
use volcano::websocket::{
    build_echo_text, build_upgrade_response, is_upgrade_request, validate_upgrade,
    WebSocketAction, WebSocketInboundMessage, WebSocketSession, WebSocketUpgradeError,
};

fn header_pairs(pairs: &[(&str, &str)]) -> Vec<(String, String)> {
    pairs
        .iter()
        .map(|(name, value)| (name.to_string(), value.to_string()))
        .collect()
}

#[test]
fn malformed_inbound_line_is_discarded_and_next_line_resolves() {
    assert!(parse_inbound_line("not-a-number-no-hash").is_none());
    let (key, payload) = parse_inbound_line("7#{\"ok\":true}").expect("line must parse");
    assert_eq!(key, 7);
    assert_eq!(payload, "{\"ok\":true}");
    assert_eq!(filter_message(7, key, payload), Some("{\"ok\":true}".to_string()));
}

#[test]
fn inbound_line_key_must_be_numeric() {
    assert!(parse_inbound_line("abc#payload").is_none());
    assert!(parse_inbound_line("#payload").is_none());
    assert!(parse_inbound_line("18446744073709551616#payload").is_none());
}

#[test]
fn inbound_line_splits_on_first_hash_only() {
    let (key, payload) = parse_inbound_line("12#a#b").expect("line must parse");
    assert_eq!(key, 12);
    assert_eq!(payload, "a#b");
}

#[test]
fn waiter_ignores_other_keys() {
    assert_eq!(filter_message(7, 8, "other".to_string()), None);
}

#[test]
fn outbound_line_is_newline_terminated_without_key() {
    assert_eq!(frame_line("{\"requestId\":1}"), "{\"requestId\":1}\n");
}

#[test]
fn upgrade_request_detection_is_case_insensitive() {
    let upgrade = to_header_table(&header_pairs(&[
        ("Connection", "Upgrade"),
        ("Upgrade", "WebSocket"),
    ]));
    assert!(is_upgrade_request(&upgrade));
    let keep_alive = to_header_table(&header_pairs(&[("Connection", "keep-alive")]));
    assert!(!is_upgrade_request(&keep_alive));
    let other_upgrade = to_header_table(&header_pairs(&[
        ("Connection", "upgrade"),
        ("Upgrade", "h2c"),
    ]));
    assert!(!is_upgrade_request(&other_upgrade));
}

#[test]
fn handshake_rejects_version_12() {
    let headers = to_header_table(&header_pairs(&[
        ("Sec-WebSocket-Version", "12"),
        ("Sec-WebSocket-Key", "dGhlIHNhbXBsZSBub25jZQ=="),
    ]));
    assert!(matches!(
        validate_upgrade(&headers),
        Err(WebSocketUpgradeError::UnsupportedVersion)
    ));
}

#[test]
fn handshake_rejects_missing_version() {
    let headers = to_header_table(&header_pairs(&[(
        "Sec-WebSocket-Key",
        "dGhlIHNhbXBsZSBub25jZQ==",
    )]));
    assert!(matches!(
        validate_upgrade(&headers),
        Err(WebSocketUpgradeError::MissingVersionHeader)
    ));
}

#[test]
fn handshake_rejects_missing_key() {
    let headers = to_header_table(&header_pairs(&[("Sec-WebSocket-Version", "13")]));
    assert!(matches!(
        validate_upgrade(&headers),
        Err(WebSocketUpgradeError::MissingKeyHeader)
    ));
}

#[test]
fn handshake_derives_rfc6455_accept_key() {
    let headers = to_header_table(&header_pairs(&[
        ("Sec-WebSocket-Version", "13"),
        ("Sec-WebSocket-Key", "dGhlIHNhbXBsZSBub25jZQ=="),
    ]));
    let accept = validate_upgrade(&headers).expect("handshake must succeed");
    assert_eq!(accept, "s3pPLMBiTxaQ9kYGzzhZRbK+xOo=");
    let response = build_upgrade_response(accept);
    assert_eq!(response.status_code, 101);
    assert_eq!(
        response.header_lines,
        vec![
            ("connection".to_string(), "upgrade".to_string()),
            ("upgrade".to_string(), "websocket".to_string()),
            (
                "sec-websocket-accept".to_string(),
                "s3pPLMBiTxaQ9kYGzzhZRbK+xOo=".to_string()
            ),
        ]
    );
    assert_eq!(response.body, "");
}

#[test]
fn escape_matches_json_string_rules() {
    assert_eq!(escape_json_string("plain"), "plain");
    assert_eq!(escape_json_string("say \"hi\""), "say \\\"hi\\\"");
    assert_eq!(escape_json_string("back\\slash"), "back\\\\slash");
    assert_eq!(escape_json_string("line\nfeed\ttab\rret"), "line\\nfeed\\ttab\\rret");
    assert_eq!(escape_json_string("\u{8}\u{c}\u{1f}"), "\\b\\f\\u001f");
}

#[test]
fn echo_text_matches_compact_json_serializer() {
    let built = build_echo_text(5, 2, "127.0.0.1", 8080, "hi \"there\"\n");
    let mut object = serde_json::Map::new();
    object.insert(
        "requestId".to_string(),
        serde_json::Value::from(5u64),
    );
    object.insert(
        "messageId".to_string(),
        serde_json::Value::from(2u64),
    );
    object.insert(
        "remoteIpAddress".to_string(),
        serde_json::Value::from("127.0.0.1"),
    );
    object.insert(
        "remotePort".to_string(),
        serde_json::Value::from(8080u16),
    );
    object.insert(
        "content".to_string(),
        serde_json::Value::from("hi \"there\"\n"),
    );
    assert_eq!(built, serde_json::Value::Object(object).to_string());
}

#[test]
fn session_echoes_text_frames_with_running_ids() {
    let mut session = WebSocketSession::new(41, "192.0.2.9".to_string(), 5000);
    let first = session.handle_frame(WebSocketInboundMessage::Text("one".to_string()));
    match first {
        WebSocketAction::Reply(reply) => assert_eq!(
            reply,
            "{\"content\":\"one\",\"messageId\":1,\"remoteIpAddress\":\"192.0.2.9\",\
             \"remotePort\":5000,\"requestId\":41}"
        ),
        _ => panic!("text frame must be echoed"),
    }
    let second = session.handle_frame(WebSocketInboundMessage::Text("two".to_string()));
    match second {
        WebSocketAction::Reply(reply) => assert!(reply.contains("\"messageId\":2")),
        _ => panic!("text frame must be echoed"),
    }
    assert_eq!(session.message_count, 3);
}

#[test]
fn session_observes_binary_ping_pong_without_reply() {
    let mut session = WebSocketSession::new(1, "192.0.2.9".to_string(), 5000);
    assert!(matches!(
        session.handle_frame(WebSocketInboundMessage::Binary(vec![1, 2])),
        WebSocketAction::Ignore
    ));
    assert!(matches!(
        session.handle_frame(WebSocketInboundMessage::Ping(vec![])),
        WebSocketAction::Ignore
    ));
    assert!(matches!(
        session.handle_frame(WebSocketInboundMessage::Pong(vec![])),
        WebSocketAction::Ignore
    ));
    assert_eq!(session.message_count, 4);
}

#[test]
fn session_echoes_close_frame_and_counter_wraps() {
    let mut session = WebSocketSession::new(1, "192.0.2.9".to_string(), 5000);
    session.message_count = u64::MAX;
    let action = session.handle_frame(WebSocketInboundMessage::Close(None));
    assert!(matches!(action, WebSocketAction::EchoClose(None)));
    assert_eq!(session.message_count, 0);
    let next = session.handle_frame(WebSocketInboundMessage::Text("after".to_string()));
    match next {
        WebSocketAction::Reply(reply) => assert!(reply.contains("\"messageId\":0")),
        _ => panic!("text frame must be echoed"),
    }
    assert_eq!(session.message_count, 1);
}
