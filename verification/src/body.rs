//! Where a request ends: the end of its header block, and the body that the
//! headers announce, by length or in chunks.

use crate::head::{head_of, parse_head};
use crate::headers::{value_of, Fields, Headers};
use crate::http::{append_bytes, ParseError, Request, RequestView};
use crate::text::{
    chars_of, latin1, latin1_chars, lowercase, parse_unsigned, parse_usize, str_eq, to_lower,
    trim_end, trimmed_len, utf8_lossy,
};
use vstd::prelude::*;
use vstd::slice::slice_subrange;

verus! {

/// The most bytes a header block may have, its closing empty line included.
pub const MAX_HEADER_SIZE: usize = 8192;

/// The largest body length a request may declare.
pub const MAX_BODY_SIZE: usize = 10485760;

/// How the body of a request is delimited.
#[derive(Debug, Clone, Copy, PartialEq, Eq, Structural)]
pub enum Framing {
    /// There is no body.
    Empty,
    /// The body has this many bytes.
    Length(usize),
    /// The body comes in chunks, each after a line with its size.
    Chunked,
}

/// The framing that `headers` ask for. `Content-Length` decides where it is
/// present; else `Transfer-Encoding`, if it says `chunked` in any case.
pub open spec fn framing_of(headers: Fields) -> Result<Framing, ParseError> {
    match value_of(headers, "Content-Length"@) {
        Some(value) => match parse_usize(value, 10) {
            None => Err(ParseError::InvalidRequest),
            Some(n) => if n > MAX_BODY_SIZE {
                Err(ParseError::ContentTooLarge)
            } else {
                Ok(Framing::Length(n))
            },
        },
        None => match value_of(headers, "Transfer-Encoding"@) {
            Some(value) => if lowercase(value) == "chunked"@ {
                Ok(Framing::Chunked)
            } else {
                Ok(Framing::Empty)
            },
            None => Ok(Framing::Empty),
        },
    }
}

/// Whether a transfer encoding, already in lower case, is the chunked one.
pub fn is_chunked(lowered: &str) -> (r: bool)
    ensures
        r == (lowered@ == "chunked"@),
{
    str_eq(lowered, "chunked")
}

/// The framing that `headers` ask for.
pub fn framing(headers: &Headers) -> (r: Result<Framing, ParseError>)
    ensures
        r == framing_of(headers@),
{
    match headers.get("Content-Length") {
        Some(value) => {
            let digits = chars_of(value.as_str());
            match parse_unsigned(digits.as_slice(), 10) {
                None => Err(ParseError::InvalidRequest),
                Some(n) => if n > MAX_BODY_SIZE {
                    Err(ParseError::ContentTooLarge)
                } else {
                    Ok(Framing::Length(n))
                },
            }
        },
        None => match headers.get("Transfer-Encoding") {
            Some(value) => {
                let lowered = to_lower(value.as_str());
                if is_chunked(lowered.as_str()) {
                    Ok(Framing::Chunked)
                } else {
                    Ok(Framing::Empty)
                }
            },
            None => Ok(Framing::Empty),
        },
    }
}

/// The size that a chunk-size line states: the line without the white space
/// at its end, read as a hexadecimal number.
pub open spec fn chunk_size_of(line: Seq<u8>) -> Option<usize> {
    parse_usize(trim_end(latin1(line)), 16)
}

/// The size that a chunk-size line states.
pub fn chunk_size(line: &[u8]) -> (r: Option<usize>)
    ensures
        r == chunk_size_of(line@),
{
    let chars = latin1_chars(line);
    let n = trimmed_len(chars.as_slice());
    parse_unsigned(slice_subrange(chars.as_slice(), 0, n), 16)
}

/// Whether the first `n` bytes of `input` end with the empty line that
/// closes a header block.
pub open spec fn ends_head(input: Seq<u8>, n: int) -> bool {
    &&& 4 <= n <= input.len()
    &&& input[n - 4] == 13
    &&& input[n - 3] == 10
    &&& input[n - 2] == 13
    &&& input[n - 1] == 10
}

/// The length of the header block of `input`: the least `n` above `from`, and
/// not above the limit, whose first `n` bytes end with the closing line.
pub open spec fn head_end(input: Seq<u8>, from: int) -> Option<int>
    decreases input.len() - from,
{
    if from < 0 || from >= input.len() || from >= MAX_HEADER_SIZE {
        None
    } else if ends_head(input, from + 1) {
        Some(from + 1)
    } else {
        head_end(input, from + 1)
    }
}

/// `n` zero bytes.
pub open spec fn zeros(n: nat) -> Seq<u8> {
    Seq::new(n, |i: int| 0u8)
}

/// A body of `n` bytes taken from `rest`. Where `rest` is too short, zero
/// bytes fill what is missing.
pub open spec fn fixed_body(rest: Seq<u8>, n: nat) -> Seq<u8> {
    if rest.len() >= n {
        rest.take(n as int)
    } else {
        rest + zeros((n - rest.len()) as nat)
    }
}

/// `s` without its first `n` items, or without all of them if it has fewer.
pub open spec fn skip_up_to(s: Seq<u8>, n: nat) -> Seq<u8> {
    if n <= s.len() {
        s.skip(n as int)
    } else {
        Seq::empty()
    }
}

/// Whether a line feed stands at `at`, just after a carriage return.
pub open spec fn breaks_at(bytes: Seq<u8>, at: int) -> bool {
    1 <= at < bytes.len() && bytes[at - 1] == 13 && bytes[at] == 10
}

/// The length of the chunk-size line at the start of `rest`: up to and with
/// the first line feed that follows a carriage return, or all of `rest`.
pub open spec fn size_line_end(rest: Seq<u8>, from: int) -> int
    decreases rest.len() - from,
{
    if from < 0 || from >= rest.len() {
        rest.len() as int
    } else if breaks_at(rest, from) {
        from + 1
    } else {
        size_line_end(rest, from + 1)
    }
}

/// A chunk-size line is no longer than what it is taken from.
pub proof fn lemma_size_line_end_bounds(rest: Seq<u8>, from: int)
    requires
        0 <= from <= rest.len(),
    ensures
        from <= size_line_end(rest, from) <= rest.len(),
        from < rest.len() ==> from < size_line_end(rest, from),
    decreases rest.len() - from,
{
    if from < rest.len() && !breaks_at(rest, from) {
        lemma_size_line_end_bounds(rest, from + 1);
    }
}

/// `body` followed by what `more` holds, or the error of `more`.
pub open spec fn after(body: Seq<u8>, more: Result<Seq<u8>, ParseError>) -> Result<
    Seq<u8>,
    ParseError,
> {
    match more {
        Ok(bytes) => Ok(body + bytes),
        Err(e) => Err(e),
    }
}

/// The body that the chunks in `rest` make. Each chunk is a size line, that
/// many bytes, and two more bytes that are passed over. A chunk of size zero
/// ends the body. Where `rest` ends early, a chunk is filled with zero bytes
/// and the next size line is empty, which is malformed.
pub open spec fn chunked_body(rest: Seq<u8>) -> Result<Seq<u8>, ParseError>
    decreases rest.len(),
{
    let n = size_line_end(rest, 0);
    if n <= 0 {
        Err(ParseError::InvalidRequest)
    } else {
        match chunk_size_of(rest.take(n)) {
            None => Err(ParseError::InvalidRequest),
            Some(size) => if size == 0 {
                Ok(Seq::empty())
            } else {
                proof {
                    lemma_size_line_end_bounds(rest, 0);
                }
                let data = rest.skip(n);
                after(
                    fixed_body(data, size as nat),
                    chunked_body(skip_up_to(skip_up_to(data, size as nat), 2)),
                )
            },
        }
    }
}

/// The body of a request with the given headers, read from `rest`.
pub open spec fn body_of(headers: Fields, rest: Seq<u8>) -> Result<Seq<u8>, ParseError> {
    match framing_of(headers) {
        Err(e) => Err(e),
        Ok(Framing::Empty) => Ok(Seq::empty()),
        Ok(Framing::Length(n)) => Ok(fixed_body(rest, n as nat)),
        Ok(Framing::Chunked) => chunked_body(rest),
    }
}

/// The request that the bytes `input` hold, from their start.
pub open spec fn request_of(input: Seq<u8>) -> Result<RequestView, ParseError> {
    match head_end(input, 0) {
        None => Err(ParseError::InvalidRequest),
        Some(n) => match head_of(utf8_lossy(input.take(n))) {
            None => Err(ParseError::InvalidRequest),
            Some(head) => match body_of(head.headers, input.skip(n)) {
                Ok(body) => Ok(head.with_body(body)),
                Err(e) => Err(e),
            },
        },
    }
}

/// A search for the end of the header block may start after any bytes that
/// do not end it.
pub proof fn lemma_head_end_from(input: Seq<u8>, from: int, to: int)
    requires
        0 <= from <= to <= input.len(),
        to <= MAX_HEADER_SIZE,
        forall|n: int| from < n <= to ==> !#[trigger] ends_head(input, n),
    ensures
        head_end(input, from) == head_end(input, to),
    decreases to - from,
{
    if from < to {
        assert(!ends_head(input, from + 1));
        lemma_head_end_from(input, from + 1, to);
    }
}

/// A search for the end of a size line may start after any bytes that do
/// not end it.
pub proof fn lemma_size_line_from(rest: Seq<u8>, from: int, to: int)
    requires
        0 <= from <= to <= rest.len(),
        forall|i: int| from <= i < to ==> !#[trigger] breaks_at(rest, i),
    ensures
        size_line_end(rest, from) == size_line_end(rest, to),
    decreases to - from,
{
    if from < to {
        assert(!breaks_at(rest, from));
        lemma_size_line_from(rest, from + 1, to);
    }
}

/// The end of the header block is the first place, within the limit, at
/// which the closing line ends; there is none if no place is one.
pub proof fn lemma_head_end_is_first(input: Seq<u8>, from: int)
    requires
        0 <= from,
    ensures
        match head_end(input, from) {
            Some(n) => {
                &&& from < n <= MAX_HEADER_SIZE
                &&& ends_head(input, n)
                &&& forall|m: int| from < m < n ==> !#[trigger] ends_head(input, m)
            },
            None => forall|m: int| from < m <= MAX_HEADER_SIZE ==> !#[trigger] ends_head(input, m),
        },
    decreases input.len() - from,
{
    if from < input.len() && from < MAX_HEADER_SIZE && !ends_head(input, from + 1) {
        lemma_head_end_is_first(input, from + 1);
    }
}

/// A stream whose first 8192 bytes hold no end of a header block holds no
/// request: it is malformed, however long it is.
pub proof fn lemma_unterminated_head(input: Seq<u8>)
    requires
        forall|n: int| 4 <= n <= MAX_HEADER_SIZE ==> !#[trigger] ends_head(input, n),
    ensures
        request_of(input) == Err::<RequestView, ParseError>(ParseError::InvalidRequest),
{
    lemma_head_end_is_first(input, 0);
    if head_end(input, 0) is Some {
        let n = head_end(input, 0)->0;
        assert(ends_head(input, n));
    }
}

/// Where the headers declare a length, the body has that length, and it is
/// the bytes after the header block where the stream holds that many.
pub proof fn lemma_body_has_declared_length(input: Seq<u8>, n: usize)
    requires
        request_of(input) is Ok,
        framing_of(request_of(input)->Ok_0.headers) == Ok::<Framing, ParseError>(
            Framing::Length(n),
        ),
    ensures
        request_of(input)->Ok_0.body.len() == n,
        head_end(input, 0) is Some,
        input.len() >= head_end(input, 0)->0 + n ==> request_of(input)->Ok_0.body
            == input.subrange(head_end(input, 0)->0, head_end(input, 0)->0 + n),
{
    let h = head_end(input, 0)->0;
    lemma_head_end_is_first(input, 0);
    if input.len() >= h + n {
        assert(input.skip(h).take(n as int) =~= input.subrange(h, h + n));
    }
}

/// Whether `line` is a size line that states the size `n`: it ends with its
/// first line break, and reads as `n`.
pub open spec fn states_size(line: Seq<u8>, n: nat) -> bool {
    &&& breaks_at(line, line.len() - 1)
    &&& forall|i: int| 0 <= i < line.len() - 1 ==> !#[trigger] breaks_at(line, i)
    &&& n <= usize::MAX
    &&& chunk_size_of(line) == Some(n as usize)
}

/// One chunk on the wire: its size line, its bytes, and the two bytes
/// that close it.
pub struct Chunk {
    pub line: Seq<u8>,
    pub data: Seq<u8>,
    pub end: Seq<u8>,
}

impl Chunk {
    /// Whether the chunk is not empty and its size line states its length.
    pub open spec fn well_formed(self) -> bool {
        self.data.len() > 0 && states_size(self.line, self.data.len()) && self.end.len() == 2
    }

    /// The chunk as bytes.
    pub open spec fn bytes(self) -> Seq<u8> {
        self.line + self.data + self.end
    }
}

/// A chunked body on the wire: the chunks, then the size line `last`.
pub open spec fn encoded(chunks: Seq<Chunk>, last: Seq<u8>) -> Seq<u8>
    decreases chunks.len(),
{
    if chunks.len() == 0 {
        last
    } else {
        chunks[0].bytes() + encoded(chunks.drop_first(), last)
    }
}

/// The bytes of the chunks, one after the other.
pub open spec fn payload(chunks: Seq<Chunk>) -> Seq<u8>
    decreases chunks.len(),
{
    if chunks.len() == 0 {
        Seq::empty()
    } else {
        chunks[0].data + payload(chunks.drop_first())
    }
}

/// A size line that states zero ends the body, whatever follows it.
pub proof fn lemma_zero_chunk_ends(last: Seq<u8>, rest: Seq<u8>)
    requires
        states_size(last, 0),
    ensures
        chunked_body(last + rest) == Ok::<Seq<u8>, ParseError>(Seq::empty()),
{
    let total = last + rest;
    let n = last.len() as int;
    assert forall|i: int| 0 <= i < n - 1 implies !#[trigger] breaks_at(total, i) by {
        assert(!breaks_at(last, i));
    }
    lemma_size_line_from(total, 0, n - 1);
    assert(breaks_at(total, n - 1));
    assert(total.take(n) =~= last);
}

/// A well-formed chunk adds its bytes to the body, and the body goes on
/// with what follows the chunk.
pub proof fn lemma_chunk_adds_its_bytes(chunk: Chunk, rest: Seq<u8>)
    requires
        chunk.well_formed(),
    ensures
        chunked_body(chunk.bytes() + rest) == after(chunk.data, chunked_body(rest)),
{
    let total = chunk.bytes() + rest;
    let n = chunk.line.len() as int;
    let size = chunk.data.len();
    assert forall|i: int| 0 <= i < n - 1 implies !#[trigger] breaks_at(total, i) by {
        assert(!breaks_at(chunk.line, i));
    }
    lemma_size_line_from(total, 0, n - 1);
    assert(breaks_at(total, n - 1));
    assert(total.take(n) =~= chunk.line);
    let data = total.skip(n);
    assert(data =~= chunk.data + chunk.end + rest);
    assert(fixed_body(data, size) =~= chunk.data);
    assert(skip_up_to(data, size) =~= chunk.end + rest);
    assert(skip_up_to(skip_up_to(data, size), 2) =~= rest);
}

/// The body of a chunked stream is the bytes of its chunks in order, size
/// lines and closing bytes left out, and it ends with the first size line
/// that states zero, whatever follows.
pub proof fn lemma_chunked_round_trip(chunks: Seq<Chunk>, last: Seq<u8>, rest: Seq<u8>)
    requires
        forall|i: int| 0 <= i < chunks.len() ==> (#[trigger] chunks[i]).well_formed(),
        states_size(last, 0),
    ensures
        chunked_body(encoded(chunks, last) + rest) == Ok::<Seq<u8>, ParseError>(payload(chunks)),
    decreases chunks.len(),
{
    if chunks.len() == 0 {
        lemma_zero_chunk_ends(last, rest);
    } else {
        let tail = chunks.drop_first();
        assert forall|i: int| 0 <= i < tail.len() implies (#[trigger] tail[i]).well_formed() by {
            assert(tail[i] == chunks[i + 1]);
        }
        lemma_chunked_round_trip(tail, last, rest);
        assert(chunks[0].well_formed());
        lemma_chunk_adds_its_bytes(chunks[0], encoded(tail, last) + rest);
        assert(encoded(chunks, last) + rest =~= chunks[0].bytes() + (encoded(tail, last) + rest));
    }
}

/// The length of the header block at the start of `input`.
pub fn find_head_end(input: &[u8]) -> (r: Option<usize>)
    ensures
        match r {
            Some(n) => head_end(input@, 0) == Some(n as int) && 4 <= n <= input@.len() && n
                <= MAX_HEADER_SIZE,
            None => head_end(input@, 0) is None,
        },
{
    let mut at: usize = 0;
    while at < input.len() && at < MAX_HEADER_SIZE
        invariant
            at <= input@.len(),
            at <= MAX_HEADER_SIZE,
            head_end(input@, 0) == head_end(input@, at as int),
        decreases input@.len() - at,
    {
        let n = at + 1;
        if n >= 4 && input[n - 4] == 13 && input[n - 3] == 10 && input[n - 2] == 13 && input[n - 1]
            == 10 {
            return Some(n);
        }
        at = n;
    }
    None
}

/// Takes a body of `n` bytes from `rest`.
pub fn take_fixed(rest: &[u8], n: usize) -> (body: Vec<u8>)
    ensures
        body@ == fixed_body(rest@, n as nat),
{
    let mut body: Vec<u8> = Vec::new();
    let have = if rest.len() < n {
        rest.len()
    } else {
        n
    };
    append_bytes(&mut body, slice_subrange(rest, 0, have));
    let mut i: usize = have;
    while i < n
        invariant
            have <= i <= n,
            body@ == rest@.take(have as int) + zeros((i - have) as nat),
        decreases n - i,
    {
        body.push(0u8);
        assert(body@ =~= rest@.take(have as int) + zeros((i + 1 - have) as nat));
        i = i + 1;
    }
    assert(body@ =~= fixed_body(rest@, n as nat));
    body
}

/// The length of the chunk-size line at the start of `rest`.
fn find_size_line_end(rest: &[u8]) -> (n: usize)
    ensures
        n == size_line_end(rest@, 0),
        n <= rest@.len(),
        rest@.len() > 0 ==> n > 0,
{
    let mut at: usize = 0;
    proof {
        lemma_size_line_end_bounds(rest@, 0);
    }
    while at < rest.len()
        invariant
            at <= rest@.len(),
            size_line_end(rest@, 0) == size_line_end(rest@, at as int),
        decreases rest@.len() - at,
    {
        if at >= 1 && rest[at - 1] == 13 && rest[at] == 10 {
            return at + 1;
        }
        at = at + 1;
    }
    at
}

/// Takes a chunked body from `rest`.
pub fn take_chunked(rest: &[u8]) -> (r: Result<Vec<u8>, ParseError>)
    ensures
        match chunked_body(rest@) {
            Ok(body) => r is Ok && r->Ok_0@ == body,
            Err(e) => r == Err::<Vec<u8>, ParseError>(e),
        },
{
    let mut body: Vec<u8> = Vec::new();
    let mut cur: &[u8] = rest;
    assert(after(body@, chunked_body(cur@)) == chunked_body(rest@)) by {
        match chunked_body(rest@) {
            Ok(bytes) => {
                assert(body@ + bytes =~= bytes);
            },
            Err(e) => {},
        }
    }
    loop
        invariant
            after(body@, chunked_body(cur@)) == chunked_body(rest@),
        decreases cur@.len(),
    {
        let n = find_size_line_end(cur);
        if n == 0 {
            return Err(ParseError::InvalidRequest);
        }
        let size = match chunk_size(slice_subrange(cur, 0, n)) {
            Some(size) => size,
            None => {
                return Err(ParseError::InvalidRequest);
            },
        };
        if size == 0 {
            assert(body@ + Seq::<u8>::empty() =~= body@);
            return Ok(body);
        }
        let data = slice_subrange(cur, n, cur.len());
        let ghost before = body@;
        let mut chunk = take_fixed(data, size);
        body.append(&mut chunk);
        let have = if data.len() < size {
            data.len()
        } else {
            size
        };
        let left = slice_subrange(data, have, data.len());
        let skip = if left.len() < 2 {
            left.len()
        } else {
            2
        };
        let next = slice_subrange(left, skip, left.len());
        proof {
            let tail = skip_up_to(skip_up_to(data@, size as nat), 2);
            assert(left@ =~= skip_up_to(data@, size as nat));
            assert(next@ =~= tail);
            assert(chunked_body(cur@) == after(fixed_body(data@, size as nat), chunked_body(tail)));
            match chunked_body(tail) {
                Ok(bytes) => {
                    assert(before + (fixed_body(data@, size as nat) + bytes) =~= (before
                        + fixed_body(data@, size as nat)) + bytes);
                },
                Err(e) => {},
            }
        }
        cur = next;
    }
}

impl Request {
    /// Reads a request from the bytes of a whole stream. What follows the
    /// request in `input` is left alone.
    pub fn parse(input: &[u8]) -> (r: Result<Request, ParseError>)
        ensures
            match request_of(input@) {
                Ok(request) => r is Ok && r->Ok_0@ == request,
                Err(e) => r == Err::<Request, ParseError>(e),
            },
    {
        let n = match find_head_end(input) {
            Some(n) => n,
            None => {
                return Err(ParseError::InvalidRequest);
            },
        };
        let head = match parse_head(slice_subrange(input, 0, n)) {
            Ok(head) => head,
            Err(e) => {
                return Err(e);
            },
        };
        let rest = slice_subrange(input, n, input.len());
        let body = match framing(&head.headers) {
            Err(e) => {
                return Err(e);
            },
            Ok(Framing::Empty) => Vec::new(),
            Ok(Framing::Length(len)) => take_fixed(rest, len),
            Ok(Framing::Chunked) => match take_chunked(rest) {
                Ok(body) => body,
                Err(e) => {
                    return Err(e);
                },
            },
        };
        Ok(Request { method: head.method, path: head.path, headers: head.headers, body })
    }
}

} // verus!
