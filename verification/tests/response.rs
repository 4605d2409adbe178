use http_server::config::Config;
use http_server::headers::Headers;
use http_server::http::{append_bytes, join, Response};
use http_server::retry::{Retry, RetryDecision};
use http_server::text::{
    chars_of, decimal_string, digit_value, is_whitespace, latin1_chars, parse_unsigned, str_eq,
    substring, trimmed_len,
};
use http_server::http::IoErrorKind;
use http_server::writer::{ResponseWriter, WriteAction, WriteEvent, WriteProgress};

fn fields(h: &Headers) -> Vec<(String, String)> {
    (0..h.len()).map(|i| (h.name_at(i).clone(), h.value_at(i).clone())).collect()
}

fn pair(a: &str, b: &str) -> (String, String) {
    (a.to_string(), b.to_string())
}

#[test]
fn a_new_response_carries_the_four_standard_headers() {
    let r = Response::new(201, "Created", "text/plain", b"abc".to_vec());
    assert_eq!(r.status_code, 201);
    assert_eq!(r.status_text, "Created");
    assert_eq!(r.body, b"abc".to_vec());
    assert_eq!(
        fields(&r.headers),
        vec![
            pair("Content-Type", "text/plain"),
            pair("Content-Length", "3"),
            pair("Connection", "close"),
            pair("Server", "Rust-HTTP-Server/1.0"),
        ]
    );
}

#[test]
fn the_wire_form_is_status_line_headers_empty_line_and_body() {
    let r = Response::ok("text/plain", b"hello".to_vec());
    let expected = b"HTTP/1.1 200 OK\r\nContent-Type: text/plain\r\nContent-Length: 5\r\nConnection: close\r\nServer: Rust-HTTP-Server/1.0\r\n\r\nhello";
    assert_eq!(r.to_bytes(), expected.to_vec());
}

#[test]
fn the_wire_form_of_an_empty_body_ends_with_the_empty_line() {
    let r = Response::new(204, "No Content", "text/plain", Vec::new());
    let bytes = r.to_bytes();
    assert!(bytes.starts_with(b"HTTP/1.1 204 No Content\r\n"));
    assert!(bytes.ends_with(b"Content-Length: 0\r\nConnection: close\r\nServer: Rust-HTTP-Server/1.0\r\n\r\n"));
}

#[test]
fn the_canned_responses_have_their_status_and_page() {
    let r = Response::not_found();
    assert_eq!((r.status_code, r.status_text.as_str()), (404, "Not Found"));
    assert_eq!(
        String::from_utf8(r.body.clone()).unwrap(),
        "<!DOCTYPE html><html><head><title>404 Not Found</title></head><body><h1>404 Not Found</h1><p>The requested resource could not be found on this server.</p></body></html>"
    );
    assert_eq!(r.headers.get("Content-Type").map(|s| s.as_str()), Some("text/html"));
    assert_eq!(r.headers.get("Content-Length").cloned(), Some(r.body.len().to_string()));

    let r = Response::internal_server_error();
    assert_eq!((r.status_code, r.status_text.as_str()), (500, "Internal Server Error"));
    assert_eq!(
        String::from_utf8(r.body.clone()).unwrap(),
        "<!DOCTYPE html><html><head><title>500 Internal Server Error</title></head><body><h1>500 Internal Server Error</h1><p>The server encountered an internal error.</p></body></html>"
    );

    let r = Response::bad_request("Too b\u{e9}g");
    assert_eq!((r.status_code, r.status_text.as_str()), (400, "Bad Request"));
    assert_eq!(
        String::from_utf8(r.body.clone()).unwrap(),
        "<!DOCTYPE html><html><head><title>400 Bad Request</title></head><body><h1>400 Bad Request</h1><p>Too b\u{e9}g</p></body></html>"
    );
    assert_eq!(r.headers.get("Content-Length").cloned(), Some(r.body.len().to_string()));
}

#[test]
fn method_not_allowed_lists_the_methods() {
    let r = Response::method_not_allowed(&["GET", "POST"]);
    assert_eq!((r.status_code, r.status_text.as_str()), (405, "Method Not Allowed"));
    assert_eq!(r.headers.get("Allow").map(|s| s.as_str()), Some("GET, POST"));
    assert_eq!(r.headers.len(), 5);
    assert_eq!(r.headers.name_at(4), "Allow");
    assert_eq!(
        String::from_utf8(r.body.clone()).unwrap(),
        "<!DOCTYPE html><html><head><title>405 Method Not Allowed</title></head><body><h1>405 Method Not Allowed</h1><p>The requested method is not allowed for this resource.</p></body></html>"
    );
    assert_eq!(Response::method_not_allowed(&[]).headers.get("Allow").map(|s| s.as_str()), Some(""));
    assert_eq!(Response::method_not_allowed(&["PUT"]).headers.get("Allow").map(|s| s.as_str()), Some("PUT"));
}

#[test]
fn join_puts_the_separator_between() {
    assert_eq!(join(&[], ", "), "");
    assert_eq!(join(&["a"], ", "), "a");
    assert_eq!(join(&["a", "b", "c"], "-"), "a-b-c");
    let mut out = vec![1u8];
    append_bytes(&mut out, &[2, 3]);
    assert_eq!(out, vec![1, 2, 3]);
}

#[test]
fn headers_hold_each_name_once() {
    let mut h = Headers::new();
    assert_eq!(h.len(), 0);
    assert_eq!(h.insert("A".to_string(), "1".to_string()), None);
    assert_eq!(h.insert("B".to_string(), "2".to_string()), None);
    assert_eq!(h.insert("A".to_string(), "3".to_string()), Some("1".to_string()));
    assert_eq!(h.insert("a".to_string(), "4".to_string()), None);
    assert_eq!(fields(&h), vec![pair("A", "3"), pair("B", "2"), pair("a", "4")]);
    assert!(h.contains_key("B"));
    assert!(!h.contains_key("b"));
    assert_eq!(h.get("A").map(|s| s.as_str()), Some("3"));
    assert_eq!(h.get("C"), None);
}

#[test]
fn numbers_are_written_and_read_in_decimal() {
    assert_eq!(decimal_string(0), "0");
    assert_eq!(decimal_string(7), "7");
    assert_eq!(decimal_string(10), "10");
    assert_eq!(decimal_string(10485760), "10485760");
    assert_eq!(decimal_string(u128::MAX), "340282366920938463463374607431768211455");
    let parse = |s: &str, radix: u32| parse_unsigned(&s.chars().collect::<Vec<char>>(), radix);
    assert_eq!(parse("0", 10), Some(0));
    assert_eq!(parse("007", 10), Some(7));
    assert_eq!(parse("+42", 10), Some(42));
    assert_eq!(parse("18446744073709551615", 10), Some(18446744073709551615));
    assert_eq!(parse("18446744073709551616", 10), None);
    assert_eq!(parse("", 10), None);
    assert_eq!(parse("+", 10), None);
    assert_eq!(parse("++1", 10), None);
    assert_eq!(parse("-1", 10), None);
    assert_eq!(parse("1a", 10), None);
    assert_eq!(parse("1a", 16), Some(26));
    assert_eq!(parse("FfFf", 16), Some(65535));
    assert_eq!(parse("ffffffffffffffff", 16), Some(usize::MAX));
    assert_eq!(parse("10000000000000000", 16), None);
    assert_eq!(digit_value('9', 10), Some(9));
    assert_eq!(digit_value('a', 10), None);
    assert_eq!(digit_value('z', 36), Some(35));
    assert_eq!(digit_value('Z', 36), Some(35));
    assert_eq!(digit_value('/', 10), None);
    assert_eq!(digit_value(':', 16), None);
}

#[test]
fn white_space_is_unicode_white_space() {
    for c in 0u32..0x3100 {
        if let Some(c) = char::from_u32(c) {
            assert_eq!(is_whitespace(c), c.is_whitespace());
        }
    }
    let chars: Vec<char> = "ab \t\u{a0}\r\n".chars().collect();
    assert_eq!(trimmed_len(&chars), 2);
    assert_eq!(trimmed_len(&[' ', ' ']), 0);
    assert_eq!(trimmed_len(&[]), 0);
}

#[test]
fn strings_are_taken_apart_by_characters() {
    assert_eq!(chars_of("h\u{e9}llo"), vec!['h', '\u{e9}', 'l', 'l', 'o']);
    assert_eq!(substring("h\u{e9}llo", 1, 3), "\u{e9}l");
    assert_eq!(substring("abc", 3, 3), "");
    assert!(str_eq("h\u{e9}", "h\u{e9}"));
    assert!(!str_eq("abc", "abd"));
    assert!(!str_eq("abc", "ab"));
    assert_eq!(latin1_chars(&[0x41, 0xe9, 0x85]), vec!['A', '\u{e9}', '\u{85}']);
}

#[test]
fn the_address_is_host_colon_port() {
    let c = Config::default();
    assert_eq!(c.host, "127.0.0.1");
    assert_eq!(c.port, 7878);
    assert_eq!(c.workers, 4);
    assert_eq!(c.static_dir, None);
    assert_eq!(c.log_level, "info");
    assert_eq!(c.address(), "127.0.0.1:7878");
    let c = Config { host: "::1".to_string(), port: 0, workers: 1, static_dir: None, log_level: String::new() };
    assert_eq!(c.address(), "::1:0");
}

#[test]
fn retry_allows_three_attempts_in_a_row() {
    let mut r = Retry::new();
    assert_eq!(r.failures(), 0);
    assert_eq!(r.on_failure(IoErrorKind::WouldBlock), RetryDecision::Again(50));
    assert_eq!(r.on_failure(IoErrorKind::TimedOut), RetryDecision::Again(50));
    assert_eq!(r.on_failure(IoErrorKind::TimedOut), RetryDecision::Again(50));
    assert_eq!(r.failures(), 3);
    assert_eq!(r.on_failure(IoErrorKind::TimedOut), RetryDecision::GiveUp);
    assert_eq!(r.failures(), 3);
    r.on_success();
    assert_eq!(r.failures(), 0);
    assert_eq!(r.on_failure(IoErrorKind::Other), RetryDecision::GiveUp);
    assert_eq!(r.failures(), 0);
}

#[test]
fn the_writer_writes_all_bytes_then_flushes() {
    let mut w = ResponseWriter::new(10);
    assert_eq!(w.action(), WriteAction::Write(0));
    assert_eq!(w.feed(WriteEvent::Wrote(4)), WriteProgress::Continue);
    assert_eq!(w.action(), WriteAction::Write(4));
    assert_eq!(w.feed(WriteEvent::Wrote(0)), WriteProgress::Continue);
    assert_eq!(w.action(), WriteAction::Write(4));
    assert_eq!(w.feed(WriteEvent::Failed(IoErrorKind::WouldBlock)), WriteProgress::RetryAfter(50));
    assert_eq!(w.action(), WriteAction::Write(4));
    assert_eq!(w.feed(WriteEvent::Wrote(6)), WriteProgress::Continue);
    assert_eq!(w.action(), WriteAction::Flush);
    assert_eq!(w.feed(WriteEvent::Flushed), WriteProgress::Done);
    assert_eq!(w.action(), WriteAction::Nothing);
}

#[test]
fn the_writer_gives_up_on_the_fourth_transient_failure() {
    let mut w = ResponseWriter::new(3);
    for _ in 0..3 {
        assert_eq!(w.feed(WriteEvent::Failed(IoErrorKind::TimedOut)), WriteProgress::RetryAfter(50));
    }
    assert_eq!(
        w.feed(WriteEvent::Failed(IoErrorKind::TimedOut)),
        WriteProgress::Failed(IoErrorKind::TimedOut)
    );
    assert_eq!(w.action(), WriteAction::Nothing);

    let mut w = ResponseWriter::new(0);
    assert_eq!(w.action(), WriteAction::Flush);
    for _ in 0..3 {
        assert_eq!(w.feed(WriteEvent::Failed(IoErrorKind::WouldBlock)), WriteProgress::RetryAfter(50));
    }
    assert_eq!(w.feed(WriteEvent::Flushed), WriteProgress::Done);

    let mut w = ResponseWriter::new(3);
    assert_eq!(w.feed(WriteEvent::Wrote(3)), WriteProgress::Continue);
    assert_eq!(w.feed(WriteEvent::Failed(IoErrorKind::Other)), WriteProgress::Failed(IoErrorKind::Other));
}
