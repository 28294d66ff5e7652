use volcano::decimal::{format_u64, parse_decimal};
use volcano::headers::{get_header_value, to_header_table};
use volcano::http_codec::{
    body_read_plan, format_socket_address, resolve_host_reply, serialize_http_request,
    to_response_parts, BodyReadPlan, SerializableHttpResponse,
};
use volcano::query::parse_url_encoded_string;
use volcano::table::MultiValueTable;

fn header_pairs(pairs: &[(&str, &str)]) -> Vec<(String, String)> {
    pairs
        .iter()
        .map(|(name, value)| (name.to_string(), value.to_string()))
        .collect()
}

#[test]
fn header_names_are_lowercased_and_values_keep_order() {
    let pairs = header_pairs(&[
        ("Set-Cookie", "first"),
        ("SET-COOKIE", "second"),
        ("Content-Type", "text/html"),
    ]);
    let table = to_header_table(&pairs);
    assert_eq!(get_header_value("set-cookie", 0, &table), "first");
    assert_eq!(get_header_value("set-cookie", 1, &table), "second");
    assert_eq!(get_header_value("content-type", 0, &table), "text/html");
    assert_eq!(get_header_value("Set-Cookie", 0, &table), "");
    assert_eq!(get_header_value("set-cookie", 2, &table), "");
    assert_eq!(get_header_value("absent", 0, &table), "");
}

#[test]
fn response_descriptor_round_trip() {
    let mut headers = MultiValueTable::new();
    headers.append("x".to_string(), "y".to_string());
    headers.append("x".to_string(), "z".to_string());
    let descriptor = SerializableHttpResponse {
        request_id: 9,
        status_code: 201,
        headers,
        body: "{\"a\":1}".to_string(),
    };
    let parts = to_response_parts(&descriptor);
    assert_eq!(parts.status_code, 201);
    assert_eq!(
        parts.header_lines,
        vec![
            ("x".to_string(), "y".to_string()),
            ("x".to_string(), "z".to_string())
        ]
    );
    assert_eq!(parts.body, "{\"a\":1}");
}

#[test]
fn undecodable_reply_resolves_to_500_error() {
    let parts = resolve_host_reply(None);
    assert_eq!(parts.status_code, 500);
    assert_eq!(parts.body, "ERROR");
    assert!(parts.header_lines.is_empty());
}

#[test]
fn query_parsing_accumulates_repeated_keys() {
    let table = parse_url_encoded_string("a=1&a=2&b=3").expect("query must parse");
    assert_eq!(table.value_at_index("a", 0), "1");
    assert_eq!(table.value_at_index("a", 1), "2");
    assert_eq!(table.value_at_index("b", 0), "3");
    assert_eq!(table.value_at_index("a", 2), "");
    assert_eq!(table.value_at_index("c", 0), "");
}

#[test]
fn empty_query_string_yields_empty_table() {
    let table = parse_url_encoded_string("").expect("empty query must parse");
    assert_eq!(table.len(), 0);
}

#[test]
fn query_parsing_percent_decodes_keys_and_values() {
    let table = parse_url_encoded_string("a%20b=c%41&plus=a+b").expect("query must parse");
    assert_eq!(table.value_at_index("a b", 0), "cA");
    assert_eq!(table.value_at_index("plus", 0), "a+b");
}

#[test]
fn query_segment_without_equals_fails() {
    assert!(parse_url_encoded_string("justakey").is_none());
    assert!(parse_url_encoded_string("a=1&").is_none());
}

#[test]
fn query_with_undecodable_percent_escape_fails() {
    assert!(parse_url_encoded_string("a=%FF").is_none());
}

#[test]
fn body_read_plan_follows_content_type() {
    assert!(matches!(body_read_plan("application/json"), BodyReadPlan::ReadAsText));
    assert!(matches!(body_read_plan("text/plain"), BodyReadPlan::ReadAsText));
    assert!(matches!(
        body_read_plan("application/x-www-form-urlencoded"),
        BodyReadPlan::ReadAsText
    ));
    assert!(matches!(
        body_read_plan("multipart/form-data; boundary=xyz"),
        BodyReadPlan::DrainMultipart
    ));
    assert!(matches!(body_read_plan("multipart/form-data"), BodyReadPlan::SkipBody));
    assert!(matches!(body_read_plan("application/octet-stream"), BodyReadPlan::SkipBody));
    assert!(matches!(body_read_plan(""), BodyReadPlan::SkipBody));
}

#[test]
fn request_descriptor_parses_json_body() {
    let pairs = header_pairs(&[("Content-Type", "application/json")]);
    let descriptor = serialize_http_request(
        1,
        "10.0.0.1".to_string(),
        4321,
        "POST".to_string(),
        "/things".to_string(),
        "a=1",
        &pairs,
        "{\"a\":1}".to_string(),
    )
    .expect("request must serialize");
    assert_eq!(descriptor.request_id, 1);
    assert_eq!(descriptor.remote_ip_address, "10.0.0.1");
    assert_eq!(descriptor.remote_port, 4321);
    assert_eq!(descriptor.method, "POST");
    assert_eq!(descriptor.path, "/things");
    assert_eq!(descriptor.body_as_text, "{\"a\":1}");
    assert!(descriptor.body.is_some());
    assert_eq!(descriptor.queries.value_at_index("a", 0), "1");
    assert_eq!(descriptor.url_encoded_form_data.len(), 0);
}

#[test]
fn request_descriptor_keeps_text_of_invalid_json() {
    let pairs = header_pairs(&[("Content-Type", "application/json")]);
    let descriptor = serialize_http_request(
        2,
        "10.0.0.1".to_string(),
        4321,
        "POST".to_string(),
        "/".to_string(),
        "",
        &pairs,
        "not json".to_string(),
    )
    .expect("request must serialize");
    assert_eq!(descriptor.body_as_text, "not json");
    assert!(descriptor.body.is_none());
}

#[test]
fn request_descriptor_parses_url_encoded_form() {
    let pairs = header_pairs(&[("Content-Type", "application/x-www-form-urlencoded")]);
    let descriptor = serialize_http_request(
        3,
        "10.0.0.1".to_string(),
        4321,
        "POST".to_string(),
        "/".to_string(),
        "",
        &pairs,
        "name=volcano&tag=a&tag=b".to_string(),
    )
    .expect("request must serialize");
    assert_eq!(descriptor.url_encoded_form_data.value_at_index("name", 0), "volcano");
    assert_eq!(descriptor.url_encoded_form_data.value_at_index("tag", 0), "a");
    assert_eq!(descriptor.url_encoded_form_data.value_at_index("tag", 1), "b");
    assert!(descriptor.body.is_none());
}

#[test]
fn request_descriptor_ignores_body_of_other_content() {
    let pairs = header_pairs(&[("Content-Type", "application/octet-stream")]);
    let descriptor = serialize_http_request(
        4,
        "10.0.0.1".to_string(),
        4321,
        "GET".to_string(),
        "/".to_string(),
        "",
        &pairs,
        "should be dropped".to_string(),
    )
    .expect("request must serialize");
    assert_eq!(descriptor.body_as_text, "");
    assert!(descriptor.body.is_none());
}

#[test]
fn forwarded_for_overrides_remote_ip() {
    let pairs = header_pairs(&[("X-Forwarded-For", "203.0.113.7, 10.0.0.1")]);
    let descriptor = serialize_http_request(
        5,
        "10.0.0.1".to_string(),
        4321,
        "GET".to_string(),
        "/".to_string(),
        "",
        &pairs,
        String::new(),
    )
    .expect("request must serialize");
    assert_eq!(descriptor.remote_ip_address, "203.0.113.7, 10.0.0.1");
    let no_pairs: Vec<(String, String)> = Vec::new();
    let plain = serialize_http_request(
        6,
        "10.0.0.1".to_string(),
        4321,
        "GET".to_string(),
        "/".to_string(),
        "",
        &no_pairs,
        String::new(),
    )
    .expect("request must serialize");
    assert_eq!(plain.remote_ip_address, "10.0.0.1");
}

#[test]
fn request_with_bad_query_string_fails() {
    let no_pairs: Vec<(String, String)> = Vec::new();
    let result = serialize_http_request(
        7,
        "10.0.0.1".to_string(),
        4321,
        "GET".to_string(),
        "/".to_string(),
        "oops",
        &no_pairs,
        String::new(),
    );
    assert!(result.is_none());
}

#[test]
fn decimal_parse_accepts_std_forms() {
    assert_eq!(parse_decimal("123", u64::MAX), Some(123));
    assert_eq!(parse_decimal("+13", u64::MAX), Some(13));
    assert_eq!(parse_decimal("0013", u64::MAX), Some(13));
    assert_eq!(parse_decimal("", u64::MAX), None);
    assert_eq!(parse_decimal("+", u64::MAX), None);
    assert_eq!(parse_decimal("12a", u64::MAX), None);
    assert_eq!(parse_decimal("-5", u64::MAX), None);
    assert_eq!(parse_decimal("65536", 65535), None);
    assert_eq!(parse_decimal("65535", 65535), Some(65535));
    assert_eq!(parse_decimal("18446744073709551615", u64::MAX), Some(u64::MAX));
    assert_eq!(parse_decimal("18446744073709551616", u64::MAX), None);
}

#[test]
fn decimal_format_writes_digits() {
    assert_eq!(format_u64(0), "0");
    assert_eq!(format_u64(7), "7");
    assert_eq!(format_u64(61798), "61798");
    assert_eq!(format_u64(u64::MAX), "18446744073709551615");
}

#[test]
fn socket_address_text_joins_host_and_port() {
    assert_eq!(format_socket_address("127.0.0.1", 61798), "127.0.0.1:61798");
    assert_eq!(format_socket_address("::1", 0), "::1:0");
}
