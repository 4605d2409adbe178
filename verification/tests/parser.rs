use http_server::http::{IoErrorKind, Method, ParseError, Request};
use http_server::parser::{Progress, ReadEvent, RequestParser};

fn drive(input: &[u8], piece: usize) -> Option<Result<Request, ParseError>> {
    let mut parser = RequestParser::new();
    let mut at = 0;
    let mut reads = 0;
    while reads <= 5 * input.len() + 1 {
        reads += 1;
        let wanted = parser.wanted();
        let left = input.len() - at;
        let event = if left == 0 {
            ReadEvent::Eof
        } else {
            let k = piece.max(1).min(wanted).min(left);
            let data = input[at..at + k].to_vec();
            at += k;
            ReadEvent::Data(data)
        };
        match parser.feed(event) {
            Progress::Done(request) => {
                assert!(parser.is_finished());
                assert_eq!(parser.wanted(), 0);
                return Some(Ok(request));
            }
            Progress::Failed(e) => {
                assert!(parser.is_finished());
                return Some(Err(e));
            }
            Progress::Continue => {}
            Progress::RetryAfter(_) => unreachable!(),
        }
    }
    None
}

fn same(a: &Result<Request, ParseError>, b: &Result<Request, ParseError>) -> bool {
    match (a, b) {
        (Ok(x), Ok(y)) => {
            x.method == y.method
                && x.path == y.path
                && x.body == y.body
                && x.headers.len() == y.headers.len()
                && (0..x.headers.len()).all(|i| {
                    x.headers.name_at(i) == y.headers.name_at(i)
                        && x.headers.value_at(i) == y.headers.value_at(i)
                })
        }
        (Err(x), Err(y)) => x == y,
        _ => false,
    }
}

#[test]
fn pieces_of_any_size_give_the_same_request() {
    let inputs: Vec<&[u8]> = vec![
        b"GET / HTTP/1.1\r\nHost: a\r\n\r\n",
        b"POST /echo HTTP/1.1\r\nContent-Type: text/plain\r\nContent-Length: 11\r\n\r\nhello world",
        b"POST /echo HTTP/1.1\r\nContent-Length: 11\r\n\r\nhello",
        b"POST /echo HTTP/1.1\r\nTransfer-Encoding: chunked\r\n\r\n5\r\nhello\r\n6\r\n world\r\n0\r\n\r\n",
        b"POST /echo HTTP/1.1\r\nTransfer-Encoding: chunked\r\n\r\n5\r\nhel",
        b"POST /echo HTTP/1.1\r\nTransfer-Encoding: chunked\r\n\r\n5",
        b"POST /echo HTTP/1.1\r\nTransfer-Encoding: chunked\r\n\r\nzz\r\n",
        b"POST / HTTP/1.1\r\nContent-Length: 99999999\r\n\r\n",
        b"GET / HTTP/1.1\r\n",
        b"",
    ];
    for input in inputs {
        let whole = Request::parse(input);
        for piece in [1usize, 2, 3, 7, 1000] {
            let got = drive(input, piece).unwrap();
            assert!(same(&got, &whole));
        }
    }
}

#[test]
fn the_parser_asks_for_one_byte_of_head_and_for_the_rest_of_the_body() {
    let mut parser = RequestParser::new();
    assert!(!parser.is_finished());
    assert_eq!(parser.wanted(), 1);
    for b in b"POST / HTTP/1.1\r\nContent-Length: 4\r\n\r\n" {
        assert_eq!(parser.wanted(), 1);
        assert!(matches!(parser.feed(ReadEvent::Data(vec![*b])), Progress::Continue));
    }
    assert_eq!(parser.wanted(), 4);
    assert!(matches!(parser.feed(ReadEvent::Data(vec![1, 2, 3])), Progress::Continue));
    assert_eq!(parser.wanted(), 1);
    match parser.feed(ReadEvent::Data(vec![4])) {
        Progress::Done(r) => {
            assert_eq!(r.method, Method::POST);
            assert_eq!(r.body, vec![1, 2, 3, 4]);
        }
        _ => panic!("the body is complete"),
    }
    assert!(parser.is_finished());
}

#[test]
fn a_large_length_ends_the_parse_before_any_body_is_read() {
    let mut parser = RequestParser::new();
    let head = b"POST / HTTP/1.1\r\nContent-Length: 10485761\r\n\r\n";
    for (i, b) in head.iter().enumerate() {
        let p = parser.feed(ReadEvent::Data(vec![*b]));
        if i + 1 < head.len() {
            assert!(matches!(p, Progress::Continue));
        } else {
            assert!(matches!(p, Progress::Failed(ParseError::ContentTooLarge)));
        }
    }
    assert_eq!(parser.wanted(), 0);
}

#[test]
fn the_head_may_not_pass_8192_bytes() {
    let mut parser = RequestParser::new();
    for i in 0..8192 {
        let p = parser.feed(ReadEvent::Data(vec![b'a']));
        if i < 8191 {
            assert!(matches!(p, Progress::Continue));
        } else {
            assert!(matches!(p, Progress::Failed(ParseError::InvalidRequest)));
        }
    }
}

#[test]
fn three_transient_failures_are_retried_and_the_fourth_is_final() {
    let mut parser = RequestParser::new();
    for kind in [IoErrorKind::WouldBlock, IoErrorKind::TimedOut, IoErrorKind::WouldBlock] {
        assert!(matches!(parser.feed(ReadEvent::Failed(kind)), Progress::RetryAfter(50)));
        assert_eq!(parser.wanted(), 1);
    }
    assert!(matches!(
        parser.feed(ReadEvent::Failed(IoErrorKind::TimedOut)),
        Progress::Failed(ParseError::IoError(IoErrorKind::TimedOut))
    ));
    assert!(parser.is_finished());
}

#[test]
fn a_read_that_gives_bytes_starts_the_count_of_failures_again() {
    let mut parser = RequestParser::new();
    for round in 0..5 {
        for _ in 0..3 {
            assert!(matches!(
                parser.feed(ReadEvent::Failed(IoErrorKind::WouldBlock)),
                Progress::RetryAfter(50)
            ));
        }
        assert!(matches!(parser.feed(ReadEvent::Data(vec![b'G' + round])), Progress::Continue));
    }
}

#[test]
fn a_failure_that_is_not_transient_is_final_at_once() {
    let mut parser = RequestParser::new();
    assert!(matches!(
        parser.feed(ReadEvent::Failed(IoErrorKind::Other)),
        Progress::Failed(ParseError::IoError(IoErrorKind::Other))
    ));
}

#[test]
fn one_byte_after_a_chunk_is_not_taken_for_two() {
    let mut parser = RequestParser::new();
    for b in b"POST / HTTP/1.1\r\nTransfer-Encoding: chunked\r\n\r\n1\r\n" {
        assert!(matches!(parser.feed(ReadEvent::Data(vec![*b])), Progress::Continue));
    }
    assert_eq!(parser.wanted(), 1);
    assert!(matches!(parser.feed(ReadEvent::Data(vec![b'x'])), Progress::Continue));
    assert_eq!(parser.wanted(), 2);
    assert!(matches!(parser.feed(ReadEvent::Data(vec![b'\r'])), Progress::Continue));
    assert_eq!(parser.wanted(), 1);
    assert!(matches!(parser.feed(ReadEvent::Data(vec![b'\n'])), Progress::Continue));
    assert_eq!(parser.wanted(), 1);
    for b in b"0\r" {
        assert!(matches!(parser.feed(ReadEvent::Data(vec![*b])), Progress::Continue));
    }
    match parser.feed(ReadEvent::Data(vec![b'\n'])) {
        Progress::Done(r) => assert_eq!(r.body, vec![b'x']),
        _ => panic!("the zero chunk ends the body"),
    }
}
