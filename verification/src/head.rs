//! The head of a request: the request line and the header lines.
//!
//! The grammar is stated over the decoded text. A line ends at a line feed;
//! a carriage return just before that line feed belongs to the ending. The
//! first line holds the method and the path, separated by white space. Each
//! further line, up to the first empty one, is a header field if it holds a
//! colon followed by a space, and is passed over otherwise.

use crate::headers::{put, Fields, Headers};
use crate::http::{Method, ParseError, Request, RequestView};
use crate::text::{chars_of, decode_lossy, is_space, is_whitespace, substring, uppercase, utf8_lossy};
use vstd::prelude::*;

verus! {

/// The place of the first line feed at or after `from`, or the length of
/// `text` if there is none.
pub open spec fn line_end(text: Seq<char>, from: int) -> int
    decreases text.len() - from,
{
    if from < 0 || from >= text.len() {
        text.len() as int
    } else if text[from] == '\n' {
        from
    } else {
        line_end(text, from + 1)
    }
}

/// Where the content of the line that starts at `from` stops: at its line
/// feed, or at the carriage return before it.
pub open spec fn line_stop(text: Seq<char>, from: int) -> int {
    let end = line_end(text, from);
    if end < text.len() && from < end && text[end - 1] == '\r' {
        end - 1
    } else {
        end
    }
}

/// The content of the line that starts at `from`.
pub open spec fn line_at(text: Seq<char>, from: int) -> Seq<char> {
    text.subrange(from, line_stop(text, from))
}

/// Where the line after the one at `from` starts.
pub open spec fn next_line(text: Seq<char>, from: int) -> int {
    let end = line_end(text, from);
    if end < text.len() {
        end + 1
    } else {
        end
    }
}

/// The first place at or after `from` that holds no white space.
pub open spec fn skip_spaces(line: Seq<char>, from: int) -> int
    decreases line.len() - from,
{
    if 0 <= from < line.len() && is_space(line[from]) {
        skip_spaces(line, from + 1)
    } else {
        from
    }
}

/// The first place at or after `from` that holds white space, or the end.
pub open spec fn token_end(line: Seq<char>, from: int) -> int
    decreases line.len() - from,
{
    if 0 <= from < line.len() && !is_space(line[from]) {
        token_end(line, from + 1)
    } else {
        from
    }
}

/// Where the first two tokens of `line` start and end, if it has two.
pub open spec fn request_tokens(line: Seq<char>) -> Option<(int, int, int, int)> {
    let a = skip_spaces(line, 0);
    let b = token_end(line, a);
    let c = skip_spaces(line, b);
    let d = token_end(line, c);
    if a == b || c == d {
        None
    } else {
        Some((a, b, c, d))
    }
}

/// The place of the first colon followed by a space at or after `from`, or
/// the length of `line` if there is none.
pub open spec fn separator_at(line: Seq<char>, from: int) -> int
    decreases line.len() - from,
{
    if from < 0 || from + 1 >= line.len() {
        line.len() as int
    } else if line[from] == ':' && line[from + 1] == ' ' {
        from
    } else {
        separator_at(line, from + 1)
    }
}

/// The name and the value that `line` holds, if it is a header field.
pub open spec fn field_of(line: Seq<char>) -> Option<(Seq<char>, Seq<char>)> {
    let at = separator_at(line, 0);
    if at >= line.len() {
        None
    } else {
        Some((line.subrange(0, at), line.subrange(at + 2, line.len() as int)))
    }
}

/// A line ends at or after its start, and within the text.
pub proof fn lemma_line_end_bounds(text: Seq<char>, from: int)
    requires
        0 <= from <= text.len(),
    ensures
        from <= line_stop(text, from) <= line_end(text, from) <= text.len(),
        from < text.len() ==> from < next_line(text, from) <= text.len(),
        line_end(text, from) < text.len() ==> text[line_end(text, from)] == '\n',
    decreases text.len() - from,
{
    if from < text.len() && text[from] != '\n' {
        lemma_line_end_bounds(text, from + 1);
    }
}

/// The header fields that the lines from `from` on add to `fields`: every
/// line up to the first empty one that is a field, a later value for a name
/// replacing the earlier.
pub open spec fn collect_fields(text: Seq<char>, from: int, fields: Fields) -> Fields
    decreases text.len() - from,
{
    if from < 0 || from >= text.len() {
        fields
    } else {
        let line = line_at(text, from);
        let next = next_line(text, from);
        if line.len() == 0 {
            fields
        } else {
            proof {
                lemma_line_end_bounds(text, from);
            }
            match field_of(line) {
                Some((name, value)) => collect_fields(text, next, put(fields, name, value)),
                None => collect_fields(text, next, fields),
            }
        }
    }
}

/// What the head of a request says.
pub struct HeadView {
    pub method: Method,
    pub path: Seq<char>,
    pub headers: Fields,
}

impl HeadView {
    /// The request with this head and the given body.
    pub open spec fn with_body(self, body: Seq<u8>) -> RequestView {
        RequestView { method: self.method, path: self.path, headers: self.headers, body }
    }
}

/// The head that `text` holds. There is none if the first line lacks a
/// method or a path.
pub open spec fn head_of(text: Seq<char>) -> Option<HeadView> {
    if text.len() == 0 {
        None
    } else {
        let line = line_at(text, 0);
        match request_tokens(line) {
            None => None,
            Some((a, b, c, d)) => Some(
                HeadView {
                    method: Method::named(uppercase(line.subrange(a, b))),
                    path: line.subrange(c, d),
                    headers: collect_fields(text, next_line(text, 0), Seq::empty()),
                },
            ),
        }
    }
}

/// Where the content of the line at `from` stops, and where the next line starts.
fn line_bounds(chars: &[char], from: usize) -> (r: (usize, usize))
    requires
        from <= chars@.len(),
    ensures
        r.0 == line_stop(chars@, from as int),
        r.1 == next_line(chars@, from as int),
        from <= r.0 <= r.1 <= chars@.len(),
        from < chars@.len() ==> from < r.1,
{
    let n = chars.len();
    let mut end: usize = from;
    while end < n && chars[end] != '\n'
        invariant
            from <= end <= n,
            n == chars@.len(),
            line_end(chars@, from as int) == line_end(chars@, end as int),
        decreases n - end,
    {
        end = end + 1;
    }
    proof {
        lemma_line_end_bounds(chars@, from as int);
    }
    if end < n {
        if from < end && chars[end - 1] == '\r' {
            (end - 1, end + 1)
        } else {
            (end, end + 1)
        }
    } else {
        (end, end)
    }
}

fn skip_white(line: &[char], from: usize) -> (at: usize)
    requires
        from <= line@.len(),
    ensures
        at == skip_spaces(line@, from as int),
        from <= at <= line@.len(),
{
    let mut at: usize = from;
    while at < line.len() && is_whitespace(line[at])
        invariant
            from <= at <= line@.len(),
            skip_spaces(line@, from as int) == skip_spaces(line@, at as int),
        decreases line@.len() - at,
    {
        at = at + 1;
    }
    at
}

fn skip_token(line: &[char], from: usize) -> (at: usize)
    requires
        from <= line@.len(),
    ensures
        at == token_end(line@, from as int),
        from <= at <= line@.len(),
{
    let mut at: usize = from;
    while at < line.len() && !is_whitespace(line[at])
        invariant
            from <= at <= line@.len(),
            token_end(line@, from as int) == token_end(line@, at as int),
        decreases line@.len() - at,
    {
        at = at + 1;
    }
    at
}

/// Where the separator of a header field stands in `line`, if it has one.
fn find_separator(line: &[char]) -> (r: Option<usize>)
    ensures
        match r {
            Some(at) => at == separator_at(line@, 0) && at + 2 <= line@.len(),
            None => separator_at(line@, 0) >= line@.len(),
        },
{
    let n = line.len();
    let mut at: usize = 0;
    while n - at > 1
        invariant
            at <= n,
            n == line@.len(),
            separator_at(line@, 0) == separator_at(line@, at as int),
        decreases n - at,
    {
        if line[at] == ':' && line[at + 1] == ' ' {
            return Some(at);
        }
        at = at + 1;
    }
    None
}

/// Reads the head of a request from its decoded text.
pub fn parse_head_text(text: &str) -> (r: Result<Request, ParseError>)
    ensures
        match head_of(text@) {
            Some(head) => r is Ok && r->Ok_0@ == head.with_body(Seq::empty()),
            None => r == Err::<Request, ParseError>(ParseError::InvalidRequest),
        },
{
    let chars = chars_of(text);
    let n = chars.len();
    if n == 0 {
        return Err(ParseError::InvalidRequest);
    }
    let (stop, first_next) = line_bounds(chars.as_slice(), 0);
    let line = substring(text, 0, stop);
    let line_chars = chars_of(line.as_str());
    let a = skip_white(line_chars.as_slice(), 0);
    let b = skip_token(line_chars.as_slice(), a);
    let c = skip_white(line_chars.as_slice(), b);
    let d = skip_token(line_chars.as_slice(), c);
    if a == b || c == d {
        return Err(ParseError::InvalidRequest);
    }
    let token = substring(line.as_str(), a, b);
    let method = Method::from(token.as_str());
    let path = substring(line.as_str(), c, d);
    let mut headers = Headers::new();
    let mut at: usize = first_next;
    loop
        invariant
            at <= n,
            n == chars@.len(),
            chars@ == text@,
            collect_fields(text@, first_next as int, Seq::empty()) == collect_fields(
                text@,
                at as int,
                headers@,
            ),
        ensures
            collect_fields(text@, first_next as int, Seq::empty()) == headers@,
        decreases n - at,
    {
        if at >= n {
            break ;
        }
        let (stop, next) = line_bounds(chars.as_slice(), at);
        if stop == at {
            break ;
        }
        let field = substring(text, at, stop);
        let field_chars = chars_of(field.as_str());
        match find_separator(field_chars.as_slice()) {
            Some(sep) => {
                let name = substring(field.as_str(), 0, sep);
                let value = substring(field.as_str(), sep + 2, field_chars.len());
                headers.insert(name, value);
            },
            None => {},
        }
        at = next;
    }
    Ok(Request { method, path, headers, body: Vec::new() })
}

/// Reads the head of a request from the bytes of its header block, decoded
/// as UTF-8 with replacement.
pub fn parse_head(block: &[u8]) -> (r: Result<Request, ParseError>)
    ensures
        match head_of(utf8_lossy(block@)) {
            Some(head) => r is Ok && r->Ok_0@ == head.with_body(Seq::empty()),
            None => r == Err::<Request, ParseError>(ParseError::InvalidRequest),
        },
{
    let text = decode_lossy(block);
    parse_head_text(text.as_str())
}

} // verus!
