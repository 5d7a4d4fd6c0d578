use warc_parser::http::{
    find_bytes, http_headers_json, matches_at, parse_http_head, parse_http_response,
};

#[test]
fn test_parse_http_response_basic() {
    let http_data = b"HTTP/1.1 404 Not Found\r\nContent-Type: text/plain\r\n\r\nNot found";
    let (version, status, headers, body) = parse_http_response(http_data, false);

    assert_eq!(version, Some("HTTP/1.1".to_string()));
    assert_eq!(status, Some(404));
    assert!(headers.unwrap().contains("\"content-type\": \"text/plain\""));
    assert_eq!(body, Some(b"Not found".to_vec()));
}

#[test]
fn test_parse_http_response_skip_body() {
    let http_data = b"HTTP/1.1 200 OK\r\nContent-Type: image/png\r\n\r\n\x89PNG\r\n\x1a\n";
    let (version, status, headers, body) = parse_http_response(http_data, true);

    assert_eq!(version, Some("HTTP/1.1".to_string()));
    assert_eq!(status, Some(200));
    assert!(headers.is_some());
    assert!(body.is_none()); // Body skipped
}

#[test]
fn test_parse_http_response_not_http() {
    let data = b"Not HTTP data";
    let (version, status, headers, body) = parse_http_response(data, false);

    assert!(version.is_none());
    assert!(status.is_none());
    assert!(headers.is_none());
    assert!(body.is_none());
}

#[test]
fn response_headers_are_written_exactly() {
    let http_data = b"HTTP/1.1 404 Not Found\r\nContent-Type: text/plain\r\n\r\nNot found";
    let (_, _, headers, _) = parse_http_response(http_data, false);
    assert_eq!(headers, Some("{\"content-type\": \"text/plain\"}".to_string()));
}

#[test]
fn header_keys_are_lower_cased_and_values_kept() {
    let data = b"HTTP/1.1 200 OK\r\nX-CUSTOM-Header:  MiXed Value \r\nETag: \"abc\"\r\n\r\n";
    let (_, _, headers, body) = parse_http_response(data, false);
    assert_eq!(
        headers,
        Some("{\"x-custom-header\": \"MiXed Value\", \"etag\": \"\\\"abc\\\"\"}".to_string())
    );
    assert_eq!(body, Some(Vec::new()));
}

#[test]
fn non_ascii_keys_are_lower_cased_too() {
    let (_, _, headers) = parse_http_head("HTTP/1.1 200 OK\n\u{c4}PFEL: \u{c4}");
    assert_eq!(headers, Some("{\"\u{e4}pfel\": \"\u{c4}\"}".to_string()));
}

#[test]
fn invalid_utf8_in_the_head_is_replaced() {
    let data = b"HTTP/1.1 200 OK\r\nX-Raw: a\xffb\r\n\r\nbody";
    let (version, status, headers, body) = parse_http_response(data, false);
    assert_eq!(version, Some("HTTP/1.1".to_string()));
    assert_eq!(status, Some(200));
    assert_eq!(headers, Some("{\"x-raw\": \"a\u{fffd}b\"}".to_string()));
    assert_eq!(body, Some(b"body".to_vec()));
}

#[test]
fn body_bytes_are_not_decoded() {
    let data = b"HTTP/1.1 200 OK\r\nA: b\r\n\r\n\xff\xfe\x00\x01";
    let (_, _, _, body) = parse_http_response(data, false);
    assert_eq!(body, Some(vec![0xff, 0xfe, 0x00, 0x01]));
}

#[test]
fn missing_separator_gives_nothing() {
    let data = b"HTTP/1.1 200 OK\r\nContent-Type: text/plain\r\n";
    assert_eq!(parse_http_response(data, false), (None, None, None, None));
}

#[test]
fn short_input_gives_nothing() {
    assert_eq!(parse_http_response(b"", false), (None, None, None, None));
    assert_eq!(parse_http_response(b"HTTP", false), (None, None, None, None));
    assert_eq!(parse_http_response(b"http/1.1 200 OK\r\n\r\n", false), (None, None, None, None));
}

#[test]
fn line_feed_pair_separates_when_no_crlf_pair_exists() {
    let data = b"HTTP/1.0 301 Moved\nLocation: /x\n\nrest";
    let (version, status, headers, body) = parse_http_response(data, false);
    assert_eq!(version, Some("HTTP/1.0".to_string()));
    assert_eq!(status, Some(301));
    assert_eq!(headers, Some("{\"location\": \"/x\"}".to_string()));
    assert_eq!(body, Some(b"rest".to_vec()));
}

#[test]
fn crlf_pair_wins_over_an_earlier_line_feed_pair() {
    let data = b"HTTP/1.1 200 OK\n\nA: b\r\n\r\nY";
    let (version, status, headers, body) = parse_http_response(data, false);
    assert_eq!(version, Some("HTTP/1.1".to_string()));
    assert_eq!(status, Some(200));
    assert_eq!(headers, Some("{\"a\": \"b\"}".to_string()));
    assert_eq!(body, Some(b"Y".to_vec()));
}

#[test]
fn unreadable_status_leaves_the_rest_in_place() {
    let data = b"HTTP/1.1 abc Oops\r\nServer: x\r\n\r\npayload";
    let (version, status, headers, body) = parse_http_response(data, false);
    assert_eq!(version, Some("HTTP/1.1".to_string()));
    assert_eq!(status, None);
    assert_eq!(headers, Some("{\"server\": \"x\"}".to_string()));
    assert_eq!(body, Some(b"payload".to_vec()));
}

#[test]
fn status_line_tokens_are_cut_at_the_first_two_spaces() {
    assert_eq!(parse_http_head("HTTP/1.1 200"), (Some("HTTP/1.1".to_string()), Some(200), None));
    assert_eq!(parse_http_head("HTTP/1.1"), (Some("HTTP/1.1".to_string()), None, None));
    assert_eq!(parse_http_head("HTTP/1.1  200 OK"), (Some("HTTP/1.1".to_string()), None, None));
    assert_eq!(
        parse_http_head("HTTP/1.1 -7 minus seven"),
        (Some("HTTP/1.1".to_string()), Some(-7), None)
    );
    assert_eq!(
        parse_http_head("HTTP/1.1 99999999999 big"),
        (Some("HTTP/1.1".to_string()), None, None)
    );
    assert_eq!(parse_http_head(""), (None, None, None));
    assert_eq!(parse_http_head("\nA: b"), (Some(String::new()), None, Some("{\"a\": \"b\"}".to_string())));
}

#[test]
fn version_token_loses_null_chars() {
    assert_eq!(
        parse_http_head("HT\0TP/1.1 200 OK"),
        (Some("HTTP/1.1".to_string()), Some(200), None)
    );
}

#[test]
fn lines_without_colon_are_passed_over() {
    let (_, _, headers) = parse_http_head("HTTP/1.1 200 OK\r\nno colon here\r\nA: 1\r\n\r\nB:2");
    assert_eq!(headers, Some("{\"a\": \"1\", \"b\": \"2\"}".to_string()));
    let (_, _, none) = parse_http_head("HTTP/1.1 200 OK\r\nno colon here");
    assert_eq!(none, None);
}

#[test]
fn repeated_keys_give_repeated_entries() {
    let (_, _, headers) = parse_http_head("HTTP/1.1 200 OK\r\nSet-Cookie: a=1\r\nset-cookie: b=2");
    assert_eq!(
        headers,
        Some("{\"set-cookie\": \"a=1\", \"set-cookie\": \"b=2\"}".to_string())
    );
}

#[test]
fn header_is_cut_at_its_first_colon() {
    let (_, _, headers) = parse_http_head("HTTP/1.1 200 OK\r\nDate: 10:20:30\r\n: empty key\r\nEmpty:");
    assert_eq!(
        headers,
        Some("{\"date\": \"10:20:30\", \"\": \"empty key\", \"empty\": \"\"}".to_string())
    );
}

#[test]
fn header_text_loses_null_chars() {
    let (_, _, headers) = parse_http_head("HTTP/1.1 200 OK\r\nA\0B: c\0d");
    assert_eq!(headers, Some("{\"ab\": \"cd\"}".to_string()));
}

#[test]
fn byte_search_finds_the_first_occurrence() {
    assert_eq!(find_bytes(b"abcabc", b"bc"), Some(1));
    assert_eq!(find_bytes(b"abcabc", b"abcabc"), Some(0));
    assert_eq!(find_bytes(b"abcabc", b"cb"), None);
    assert_eq!(find_bytes(b"ab", b"abc"), None);
    assert_eq!(find_bytes(b"ab", b""), Some(0));
    assert_eq!(find_bytes(b"", b""), Some(0));
    assert_eq!(find_bytes(b"aab", b"ab"), Some(1));
    assert!(matches_at(b"hello", b"llo", 2));
    assert!(!matches_at(b"hello", b"llo", 1));
}

#[test]
fn header_map_is_written_from_pairs() {
    assert_eq!(http_headers_json(&Vec::new()), None);
    let pairs = vec![
        ("content-type".to_string(), "text/plain".to_string()),
        ("etag".to_string(), "\"abc\"".to_string()),
        ("Kept-As-Is".to_string(), String::new()),
        ("etag".to_string(), "second".to_string()),
        ("k\"ey".to_string(), "nu\0ll".to_string()),
    ];
    assert_eq!(
        http_headers_json(&pairs),
        Some(
            "{\"content-type\": \"text/plain\", \"etag\": \"\\\"abc\\\"\", \"Kept-As-Is\": \"\", \"etag\": \"second\", \"k\\\"ey\": \"null\"}"
                .to_string()
        )
    );
    let one = vec![("a".to_string(), "b".to_string())];
    assert_eq!(http_headers_json(&one), Some("{\"a\": \"b\"}".to_string()));
}
