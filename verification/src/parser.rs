//! Reading a request piece by piece.
//!
//! The parser never reads. It says how many bytes it can take next, is told
//! what the read gave (bytes, the end of the stream, or a failure), and
//! answers with what to do: go on, pause and try again, hand over the
//! request, or give up.

use crate::body::{
    chunk_size, chunk_size_of, ends_head, framing, framing_of, zeros, Framing, MAX_HEADER_SIZE,
};
use crate::head::{head_of, parse_head};
use crate::headers::Headers;
use crate::http::{append_bytes, IoErrorKind, Method, ParseError, Request, RequestView};
use crate::retry::{retries, Retry, RetryDecision, RETRY_DELAY_MS};
use crate::text::utf8_lossy;
use vstd::prelude::*;

verus! {

/// What the parser is reading.
#[derive(Debug, Clone, Copy, PartialEq, Eq, Structural)]
pub enum Phase {
    /// The header block, byte by byte.
    Head,
    /// A body whose length was declared.
    Fixed,
    /// The size line of a chunk, byte by byte.
    ChunkSize,
    /// The bytes of a chunk.
    ChunkData,
    /// The two bytes after a chunk.
    ChunkEnd,
    /// Nothing any more.
    Finished,
}

/// What a read gave.
#[derive(Debug)]
pub enum ReadEvent {
    /// These bytes, at least one.
    Data(Vec<u8>),
    /// Nothing: the stream has ended.
    Eof,
    /// A failure of this kind.
    Failed(IoErrorKind),
}

/// What a [`ReadEvent`] holds.
pub enum EventView {
    Data(Seq<u8>),
    Eof,
    Failed(IoErrorKind),
}

impl View for ReadEvent {
    type V = EventView;

    open spec fn view(&self) -> EventView {
        match self {
            ReadEvent::Data(bytes) => EventView::Data(bytes@),
            ReadEvent::Eof => EventView::Eof,
            ReadEvent::Failed(kind) => EventView::Failed(*kind),
        }
    }
}

/// What the parser says after an event.
#[derive(Debug)]
pub enum Progress {
    /// Read again.
    Continue,
    /// Pause for this many milliseconds, then read again.
    RetryAfter(u64),
    /// The request is complete.
    Done(Request),
    /// The request cannot be had.
    Failed(ParseError),
}

/// What a [`Progress`] holds.
pub enum ProgressView {
    Continue,
    RetryAfter(u64),
    Done(RequestView),
    Failed(ParseError),
}

impl View for Progress {
    type V = ProgressView;

    open spec fn view(&self) -> ProgressView {
        match self {
            Progress::Continue => ProgressView::Continue,
            Progress::RetryAfter(millis) => ProgressView::RetryAfter(*millis),
            Progress::Done(request) => ProgressView::Done(request@),
            Progress::Failed(e) => ProgressView::Failed(*e),
        }
    }
}

/// The state of a parser.
pub struct ParserView {
    pub phase: Phase,
    /// The bytes of the header block, or of the size line, read so far.
    pub buffer: Seq<u8>,
    /// The request as far as it is known.
    pub request: RequestView,
    /// How many bytes of the body, of the chunk or after the chunk are
    /// still to come.
    pub need: nat,
    /// The transient failures since the last read that gave something.
    pub failures: nat,
}

/// A request that says nothing.
pub open spec fn blank_request() -> RequestView {
    RequestView { method: Method::GET, path: Seq::empty(), headers: Seq::empty(), body: Seq::empty() }
}

/// `request` with `more` added to its body.
pub open spec fn with_more(request: RequestView, more: Seq<u8>) -> RequestView {
    RequestView { body: request.body + more, ..request }
}

/// Whether `line` ends with a carriage return and a line feed.
pub open spec fn ends_line(line: Seq<u8>) -> bool {
    line.len() >= 2 && line[line.len() - 2] == 13 && line[line.len() - 1] == 10
}

impl ParserView {
    /// The state before anything was read.
    pub open spec fn start() -> ParserView {
        ParserView {
            phase: Phase::Head,
            buffer: Seq::empty(),
            request: blank_request(),
            need: 0,
            failures: 0,
        }
    }

    /// The state after the last answer.
    pub open spec fn finished() -> ParserView {
        ParserView {
            phase: Phase::Finished,
            buffer: Seq::empty(),
            request: blank_request(),
            need: 0,
            failures: 0,
        }
    }

    /// The state in which `phase` begins, with `need` bytes to come.
    pub open spec fn entering(phase: Phase, request: RequestView, need: nat) -> ParserView {
        ParserView { phase, buffer: Seq::empty(), request, need, failures: 0 }
    }

    /// The most bytes the next read may give.
    pub open spec fn wanted(self) -> nat {
        match self.phase {
            Phase::Head => 1,
            Phase::ChunkSize => 1,
            Phase::Fixed => self.need,
            Phase::ChunkData => self.need,
            Phase::ChunkEnd => self.need,
            Phase::Finished => 0,
        }
    }
}

/// The answer that ends the parse with `request`.
pub open spec fn done(request: RequestView) -> (ParserView, ProgressView) {
    (ParserView::finished(), ProgressView::Done(request))
}

/// The answer that ends the parse with the error `e`.
pub open spec fn failed(e: ParseError) -> (ParserView, ProgressView) {
    (ParserView::finished(), ProgressView::Failed(e))
}

/// What follows a complete header block: the request without a body, the
/// start of its body, or an error.
pub open spec fn head_complete(block: Seq<u8>) -> (ParserView, ProgressView) {
    match head_of(utf8_lossy(block)) {
        None => failed(ParseError::InvalidRequest),
        Some(head) => {
            let request = head.with_body(Seq::empty());
            match framing_of(head.headers) {
                Err(e) => failed(e),
                Ok(Framing::Empty) => done(request),
                Ok(Framing::Length(n)) => if n == 0 {
                    done(request)
                } else {
                    (ParserView::entering(Phase::Fixed, request, n as nat), ProgressView::Continue)
                },
                Ok(Framing::Chunked) => (
                    ParserView::entering(Phase::ChunkSize, request, 0),
                    ProgressView::Continue,
                ),
            }
        },
    }
}

/// What follows a size line: the end of the body, the chunk, or an error.
pub open spec fn size_line_complete(request: RequestView, line: Seq<u8>) -> (
    ParserView,
    ProgressView,
) {
    match chunk_size_of(line) {
        None => failed(ParseError::InvalidRequest),
        Some(size) => if size == 0 {
            done(request)
        } else {
            (ParserView::entering(Phase::ChunkData, request, size as nat), ProgressView::Continue)
        },
    }
}

/// What follows the bytes `data`, of which there are at least one and at
/// most as many as wanted.
pub open spec fn on_data(s: ParserView, data: Seq<u8>) -> (ParserView, ProgressView) {
    match s.phase {
        Phase::Head => {
            let buffer = s.buffer + data;
            if ends_head(buffer, buffer.len() as int) {
                head_complete(buffer)
            } else if buffer.len() >= MAX_HEADER_SIZE {
                failed(ParseError::InvalidRequest)
            } else {
                (ParserView { buffer, failures: 0, ..s }, ProgressView::Continue)
            }
        },
        Phase::Fixed => {
            let request = with_more(s.request, data);
            let need = (s.need - data.len()) as nat;
            if need == 0 {
                done(request)
            } else {
                (ParserView { request, need, failures: 0, ..s }, ProgressView::Continue)
            }
        },
        Phase::ChunkSize => {
            let line = s.buffer + data;
            if ends_line(line) {
                size_line_complete(s.request, line)
            } else {
                (ParserView { buffer: line, failures: 0, ..s }, ProgressView::Continue)
            }
        },
        Phase::ChunkData => {
            let request = with_more(s.request, data);
            let need = (s.need - data.len()) as nat;
            if need == 0 {
                (ParserView::entering(Phase::ChunkEnd, request, 2), ProgressView::Continue)
            } else {
                (ParserView { request, need, failures: 0, ..s }, ProgressView::Continue)
            }
        },
        Phase::ChunkEnd => {
            let need = (s.need - data.len()) as nat;
            if need == 0 {
                (ParserView::entering(Phase::ChunkSize, s.request, 0), ProgressView::Continue)
            } else {
                (ParserView { need, failures: 0, ..s }, ProgressView::Continue)
            }
        },
        Phase::Finished => (s, ProgressView::Continue),
    }
}

/// What follows the end of the stream. A header block that is cut short is
/// malformed; a body or a chunk that is cut short is filled with zero bytes;
/// a size line that is cut short is read as it stands.
pub open spec fn on_eof(s: ParserView) -> (ParserView, ProgressView) {
    match s.phase {
        Phase::Head => failed(ParseError::InvalidRequest),
        Phase::Fixed => done(with_more(s.request, zeros(s.need))),
        Phase::ChunkSize => size_line_complete(s.request, s.buffer),
        Phase::ChunkData => (
            ParserView::entering(Phase::ChunkEnd, with_more(s.request, zeros(s.need)), 2),
            ProgressView::Continue,
        ),
        Phase::ChunkEnd => (
            ParserView::entering(Phase::ChunkSize, s.request, 0),
            ProgressView::Continue,
        ),
        Phase::Finished => (s, ProgressView::Continue),
    }
}

/// What follows a failed read: another attempt after a pause, as long as
/// the failure is transient and fewer than three came in a row; else the end.
pub open spec fn on_failure(s: ParserView, kind: IoErrorKind) -> (ParserView, ProgressView) {
    if retries(s.failures, kind) {
        (ParserView { failures: s.failures + 1, ..s }, ProgressView::RetryAfter(RETRY_DELAY_MS))
    } else {
        failed(ParseError::IoError(kind))
    }
}

/// The state and the answer that follow an event.
pub open spec fn step(s: ParserView, event: EventView) -> (ParserView, ProgressView) {
    match event {
        EventView::Data(data) => on_data(s, data),
        EventView::Eof => on_eof(s),
        EventView::Failed(kind) => on_failure(s, kind),
    }
}

/// Reads one request from events.
#[derive(Debug)]
pub struct RequestParser {
    phase: Phase,
    buffer: Vec<u8>,
    request: Request,
    need: usize,
    retry: Retry,
}

impl View for RequestParser {
    type V = ParserView;

    closed spec fn view(&self) -> ParserView {
        ParserView {
            phase: self.phase,
            buffer: self.buffer@,
            request: self.request@,
            need: self.need as nat,
            failures: self.retry@,
        }
    }
}

fn blank() -> (r: Request)
    ensures
        r@ == blank_request(),
{
    Request { method: Method::GET, path: String::new(), headers: Headers::new(), body: Vec::new() }
}

fn push_zeros(out: &mut Vec<u8>, n: usize)
    ensures
        final(out)@ == old(out)@ + zeros(n as nat),
{
    let mut i: usize = 0;
    assert(out@ =~= old(out)@ + zeros(0));
    while i < n
        invariant
            i <= n,
            out@ == old(out)@ + zeros(i as nat),
        decreases n - i,
    {
        out.push(0u8);
        assert(out@ =~= old(out)@ + zeros((i + 1) as nat));
        i = i + 1;
    }
}

impl RequestParser {
    /// A parser that has read nothing.
    pub fn new() -> (p: RequestParser)
        ensures
            p@ == ParserView::start(),
    {
        RequestParser {
            phase: Phase::Head,
            buffer: Vec::new(),
            request: blank(),
            need: 0,
            retry: Retry::new(),
        }
    }

    /// Whether the parser has given its last answer.
    pub fn is_finished(&self) -> (r: bool)
        ensures
            r == (self@.phase == Phase::Finished),
    {
        self.phase == Phase::Finished
    }

    /// The most bytes the next read may give; 0 once the parser has finished.
    pub fn wanted(&self) -> (n: usize)
        ensures
            n == self@.wanted(),
    {
        match self.phase {
            Phase::Head => 1,
            Phase::ChunkSize => 1,
            Phase::Fixed => self.need,
            Phase::ChunkData => self.need,
            Phase::ChunkEnd => self.need,
            Phase::Finished => 0,
        }
    }

    fn enter(&mut self, phase: Phase, need: usize)
        ensures
            final(self)@ == ParserView::entering(phase, old(self)@.request, need as nat),
    {
        self.phase = phase;
        self.buffer = Vec::new();
        self.need = need;
        self.retry = Retry::new();
    }

    fn finish(&mut self) -> (request: Request)
        ensures
            request@ == old(self)@.request,
            final(self)@ == ParserView::finished(),
    {
        let mut request = blank();
        core::mem::swap(&mut self.request, &mut request);
        self.phase = Phase::Finished;
        self.buffer = Vec::new();
        self.need = 0;
        self.retry = Retry::new();
        request
    }

    fn fail(&mut self, e: ParseError) -> (p: Progress)
        ensures
            (final(self)@, p@) == failed(e),
    {
        let _ = self.finish();
        Progress::Failed(e)
    }

    fn succeed(&mut self) -> (p: Progress)
        ensures
            (final(self)@, p@) == done(old(self)@.request),
    {
        Progress::Done(self.finish())
    }

    fn end_head(&mut self) -> (p: Progress)
        ensures
            (final(self)@, p@) == head_complete(old(self)@.buffer),
    {
        match parse_head(self.buffer.as_slice()) {
            Err(e) => self.fail(ParseError::InvalidRequest),
            Ok(request) => {
                let how = framing(&request.headers);
                self.request = request;
                match how {
                    Err(e) => self.fail(e),
                    Ok(Framing::Empty) => self.succeed(),
                    Ok(Framing::Length(n)) => if n == 0 {
                        self.succeed()
                    } else {
                        self.enter(Phase::Fixed, n);
                        Progress::Continue
                    },
                    Ok(Framing::Chunked) => {
                        self.enter(Phase::ChunkSize, 0);
                        Progress::Continue
                    },
                }
            },
        }
    }

    fn end_size_line(&mut self) -> (p: Progress)
        ensures
            (final(self)@, p@) == size_line_complete(old(self)@.request, old(self)@.buffer),
    {
        match chunk_size(self.buffer.as_slice()) {
            None => self.fail(ParseError::InvalidRequest),
            Some(size) => if size == 0 {
                self.succeed()
            } else {
                self.enter(Phase::ChunkData, size);
                Progress::Continue
            },
        }
    }

    fn take_data(&mut self, data: &[u8]) -> (p: Progress)
        requires
            1 <= data@.len() <= old(self)@.wanted(),
        ensures
            (final(self)@, p@) == on_data(old(self)@, data@),
    {
        self.retry.on_success();
        match self.phase {
            Phase::Head => {
                append_bytes(&mut self.buffer, data);
                let n = self.buffer.len();
                if n >= 4 && self.buffer[n - 4] == 13 && self.buffer[n - 3] == 10 && self.buffer[n
                    - 2] == 13 && self.buffer[n - 1] == 10 {
                    self.end_head()
                } else if n >= MAX_HEADER_SIZE {
                    self.fail(ParseError::InvalidRequest)
                } else {
                    Progress::Continue
                }
            },
            Phase::Fixed => {
                append_bytes(&mut self.request.body, data);
                self.need = self.need - data.len();
                if self.need == 0 {
                    self.succeed()
                } else {
                    Progress::Continue
                }
            },
            Phase::ChunkSize => {
                append_bytes(&mut self.buffer, data);
                let n = self.buffer.len();
                if n >= 2 && self.buffer[n - 2] == 13 && self.buffer[n - 1] == 10 {
                    self.end_size_line()
                } else {
                    Progress::Continue
                }
            },
            Phase::ChunkData => {
                append_bytes(&mut self.request.body, data);
                self.need = self.need - data.len();
                if self.need == 0 {
                    self.enter(Phase::ChunkEnd, 2);
                }
                Progress::Continue
            },
            Phase::ChunkEnd => {
                self.need = self.need - data.len();
                if self.need == 0 {
                    self.enter(Phase::ChunkSize, 0);
                }
                Progress::Continue
            },
            Phase::Finished => Progress::Continue,
        }
    }

    fn take_eof(&mut self) -> (p: Progress)
        ensures
            (final(self)@, p@) == on_eof(old(self)@),
    {
        match self.phase {
            Phase::Head => self.fail(ParseError::InvalidRequest),
            Phase::Fixed => {
                push_zeros(&mut self.request.body, self.need);
                self.succeed()
            },
            Phase::ChunkSize => self.end_size_line(),
            Phase::ChunkData => {
                push_zeros(&mut self.request.body, self.need);
                self.enter(Phase::ChunkEnd, 2);
                Progress::Continue
            },
            Phase::ChunkEnd => {
                self.enter(Phase::ChunkSize, 0);
                Progress::Continue
            },
            Phase::Finished => Progress::Continue,
        }
    }

    fn take_failure(&mut self, kind: IoErrorKind) -> (p: Progress)
        ensures
            (final(self)@, p@) == on_failure(old(self)@, kind),
    {
        match self.retry.on_failure(kind) {
            RetryDecision::Again(millis) => Progress::RetryAfter(millis),
            RetryDecision::GiveUp => self.fail(ParseError::IoError(kind)),
        }
    }

    /// Takes what a read gave and says what to do next. After `Done` and
    /// after `Failed` the parser has finished.
    pub fn feed(&mut self, event: ReadEvent) -> (p: Progress)
        requires
            event@ matches EventView::Data(data) ==> 1 <= data.len() <= old(self)@.wanted(),
        ensures
            (final(self)@, p@) == step(old(self)@, event@),
    {
        match event {
            ReadEvent::Data(bytes) => self.take_data(bytes.as_slice()),
            ReadEvent::Eof => self.take_eof(),
            ReadEvent::Failed(kind) => self.take_failure(kind),
        }
    }
}

} // verus!
