//! What the piecewise parser makes of a stream, however the stream is cut.
//!
//! A stream hands its bytes over in pieces of any size, and says so when it
//! has ended. The laws here say that the answer of the parser depends on the
//! bytes alone: it is the request that the bytes hold as a whole.

use crate::body::{
    after, breaks_at, chunk_size_of, chunked_body, ends_head, fixed_body, framing_of, head_end,
    lemma_head_end_from, lemma_size_line_from, request_of, size_line_end, skip_up_to, zeros,
    Framing, MAX_BODY_SIZE, MAX_HEADER_SIZE,
};
use crate::head::head_of;
use crate::headers::value_of;
use crate::http::{IoErrorKind, ParseError, RequestView};
use crate::parser::{
    ends_line, failed, head_complete, on_data, on_eof, on_failure, size_line_complete, step,
    with_more, EventView, ParserView, Phase, ProgressView,
};
use crate::retry::retries;
use crate::text::{latin1, parse_usize, utf8_lossy};
use vstd::prelude::*;

verus! {

/// What holds of the state of a parser between two events.
pub open spec fn consistent(s: ParserView) -> bool {
    match s.phase {
        Phase::Head => {
            &&& s.buffer.len() < MAX_HEADER_SIZE
            &&& forall|n: int| 1 <= n <= s.buffer.len() ==> !#[trigger] ends_head(s.buffer, n)
        },
        Phase::ChunkSize => forall|i: int|
            0 <= i < s.buffer.len() ==> !#[trigger] breaks_at(s.buffer, i),
        Phase::Fixed => s.need > 0,
        Phase::ChunkData => s.need > 0,
        Phase::ChunkEnd => 1 <= s.need <= 2,
        Phase::Finished => false,
    }
}

/// `request` with the body that `body` holds added to its own.
pub open spec fn finish(request: RequestView, body: Result<Seq<u8>, ParseError>) -> Result<
    RequestView,
    ParseError,
> {
    match body {
        Ok(bytes) => Ok(with_more(request, bytes)),
        Err(e) => Err(e),
    }
}

/// The answer that a parser in state `s` owes to a stream that still holds
/// `rest` and then ends.
pub open spec fn outcome(s: ParserView, rest: Seq<u8>) -> Result<RequestView, ParseError> {
    match s.phase {
        Phase::Head => request_of(s.buffer + rest),
        Phase::Fixed => Ok(with_more(s.request, fixed_body(rest, s.need))),
        Phase::ChunkSize => finish(s.request, chunked_body(s.buffer + rest)),
        Phase::ChunkData => finish(
            s.request,
            after(
                fixed_body(rest, s.need),
                chunked_body(skip_up_to(skip_up_to(rest, s.need), 2)),
            ),
        ),
        Phase::ChunkEnd => finish(s.request, chunked_body(skip_up_to(rest, s.need))),
        Phase::Finished => Err(ParseError::InvalidRequest),
    }
}

/// A bound on the number of reads that a parser in state `s` still makes of
/// a stream that holds `rest`.
pub open spec fn budget(s: ParserView, rest: Seq<u8>) -> nat {
    5 * rest.len() + match s.phase {
        Phase::ChunkSize => if s.buffer.len() > 0 {
            4nat
        } else {
            1nat
        },
        Phase::ChunkData => 3,
        Phase::ChunkEnd => 2,
        _ => 1,
    }
}

/// What an answer must be for the parse to stay on course: a last answer is
/// the one owed; after any other, the parser owes the same answer to what is
/// left of the stream, and is nearer to giving it.
pub open spec fn on_course(
    s: ParserView,
    rest: Seq<u8>,
    taken: int,
    next: ParserView,
    progress: ProgressView,
) -> bool {
    match progress {
        ProgressView::Done(request) => outcome(s, rest) == Ok::<RequestView, ParseError>(request),
        ProgressView::Failed(e) => outcome(s, rest) == Err::<RequestView, ParseError>(e),
        ProgressView::Continue => {
            &&& consistent(next)
            &&& outcome(next, rest.skip(taken)) == outcome(s, rest)
            &&& budget(next, rest.skip(taken)) < budget(s, rest)
        },
        ProgressView::RetryAfter(_) => false,
    }
}

proof fn lemma_fixed_body_split(rest: Seq<u8>, n: nat, k: nat)
    requires
        k <= n,
        k <= rest.len(),
    ensures
        fixed_body(rest, n) == rest.take(k as int) + fixed_body(rest.skip(k as int), (n - k) as nat),
        skip_up_to(rest, n) == skip_up_to(rest.skip(k as int), (n - k) as nat),
{
    assert(fixed_body(rest, n) =~= rest.take(k as int) + fixed_body(
        rest.skip(k as int),
        (n - k) as nat,
    ));
    assert(skip_up_to(rest, n) =~= skip_up_to(rest.skip(k as int), (n - k) as nat));
}

/// An empty size line states no size.
pub proof fn lemma_empty_line_has_no_size()
    ensures
        chunk_size_of(Seq::<u8>::empty()) is None,
{
    assert(latin1(Seq::<u8>::empty()) =~= Seq::<char>::empty());
}

proof fn lemma_head_block(s: ParserView, rest: Seq<u8>)
    requires
        s.phase == Phase::Head,
        consistent(s),
        rest.len() > 0,
    ensures
        on_course(
            s,
            rest,
            1,
            on_data(s, rest.take(1)).0,
            on_data(s, rest.take(1)).1,
        ),
{
    let input = s.buffer + rest;
    let len = s.buffer.len() as int;
    let block = s.buffer + rest.take(1);
    let left = rest.skip(1);
    assert(block =~= input.take(len + 1));
    assert(block + left =~= input);
    assert(left =~= input.skip(len + 1));
    assert forall|n: int| 0 < n <= len implies !#[trigger] ends_head(input, n) by {
        assert(!ends_head(s.buffer, n));
    }
    lemma_head_end_from(input, 0, len);
    assert(ends_head(block, len + 1) == ends_head(input, len + 1));
    let (next, progress) = on_data(s, rest.take(1));
    if ends_head(block, len + 1) {
        assert(head_end(input, 0) == Some(len + 1));
        match head_of(utf8_lossy(block)) {
            None => {},
            Some(head) => {
                let request = head.with_body(Seq::empty());
                match framing_of(head.headers) {
                    Err(e) => {},
                    Ok(Framing::Empty) => {},
                    Ok(Framing::Length(n)) => {
                        if n == 0 {
                            assert(fixed_body(left, 0) =~= Seq::<u8>::empty());
                        } else {
                            assert(with_more(request, fixed_body(left, n as nat)).body
                                =~= fixed_body(left, n as nat));
                        }
                    },
                    Ok(Framing::Chunked) => {
                        assert(Seq::<u8>::empty() + left =~= left);
                        match chunked_body(left) {
                            Ok(bytes) => {
                                assert(with_more(request, bytes).body =~= bytes);
                            },
                            Err(e) => {},
                        }
                    },
                }
            },
        }
    } else if block.len() >= MAX_HEADER_SIZE {
        assert(head_end(input, len + 1) is None);
    } else {
        assert forall|n: int| 1 <= n <= block.len() implies !#[trigger] ends_head(block, n) by {
            if n <= len {
                assert(!ends_head(s.buffer, n));
            }
        }
    }
}

proof fn lemma_body_bytes(s: ParserView, rest: Seq<u8>, k: int)
    requires
        s.phase == Phase::Fixed || s.phase == Phase::ChunkData || s.phase == Phase::ChunkEnd,
        consistent(s),
        1 <= k <= rest.len(),
        k <= s.need,
    ensures
        on_course(s, rest, k, on_data(s, rest.take(k)).0, on_data(s, rest.take(k)).1),
{
    let data = rest.take(k);
    let left = rest.skip(k);
    let need = (s.need - k) as nat;
    lemma_fixed_body_split(rest, s.need, k as nat);
    let (next, progress) = on_data(s, data);
    match s.phase {
        Phase::Fixed => {
            let request = with_more(s.request, data);
            if need == 0 {
                assert(fixed_body(left, 0) =~= Seq::<u8>::empty());
                assert(request.body =~= with_more(s.request, fixed_body(rest, s.need)).body);
            } else {
                assert(with_more(request, fixed_body(left, need)).body =~= with_more(
                    s.request,
                    fixed_body(rest, s.need),
                ).body);
            }
        },
        Phase::ChunkData => {
            let request = with_more(s.request, data);
            let tail = chunked_body(skip_up_to(skip_up_to(rest, s.need), 2));
            if need == 0 {
                assert(fixed_body(left, 0) =~= Seq::<u8>::empty());
                assert(fixed_body(rest, s.need) =~= data);
                assert(skip_up_to(rest, s.need) =~= left);
                match tail {
                    Ok(bytes) => {
                        assert(with_more(request, bytes).body =~= with_more(
                            s.request,
                            data + bytes,
                        ).body);
                    },
                    Err(e) => {},
                }
            } else {
                match tail {
                    Ok(bytes) => {
                        assert(with_more(request, fixed_body(left, need) + bytes).body
                            =~= with_more(s.request, fixed_body(rest, s.need) + bytes).body);
                    },
                    Err(e) => {},
                }
            }
        },
        _ => {
            if need == 0 {
                assert(Seq::<u8>::empty() + left =~= left);
                assert(skip_up_to(rest, s.need) =~= left);
            } else {
                assert(skip_up_to(rest, s.need) =~= skip_up_to(left, need));
            }
        },
    }
}

proof fn lemma_size_line_done(request: RequestView, line: Seq<u8>, left: Seq<u8>)
    requires
        line.len() > 0,
        size_line_end(line + left, 0) == line.len(),
    ensures
        match size_line_complete(request, line).1 {
            ProgressView::Done(r) => finish(request, chunked_body(line + left)) == Ok::<
                RequestView,
                ParseError,
            >(r),
            ProgressView::Failed(e) => finish(request, chunked_body(line + left)) == Err::<
                RequestView,
                ParseError,
            >(e),
            ProgressView::Continue => {
                &&& consistent(size_line_complete(request, line).0)
                &&& outcome(size_line_complete(request, line).0, left) == finish(
                    request,
                    chunked_body(line + left),
                )
                &&& size_line_complete(request, line).0.phase == Phase::ChunkData
            },
            ProgressView::RetryAfter(_) => false,
        },
{
    let total = line + left;
    let n = line.len() as int;
    assert(total.take(n) =~= line);
    assert(total.skip(n) =~= left);
    match chunk_size_of(line) {
        None => {},
        Some(size) => {
            if size == 0 {
                assert(with_more(request, Seq::<u8>::empty()).body =~= request.body);
            }
        },
    }
}

proof fn lemma_size_line_byte(s: ParserView, rest: Seq<u8>)
    requires
        s.phase == Phase::ChunkSize,
        consistent(s),
        rest.len() > 0,
    ensures
        on_course(
            s,
            rest,
            1,
            on_data(s, rest.take(1)).0,
            on_data(s, rest.take(1)).1,
        ),
{
    let total = s.buffer + rest;
    let len = s.buffer.len() as int;
    let line = s.buffer + rest.take(1);
    let left = rest.skip(1);
    assert(line + left =~= total);
    assert forall|i: int| 0 <= i < len implies !#[trigger] breaks_at(total, i) by {
        assert(!breaks_at(s.buffer, i));
    }
    lemma_size_line_from(total, 0, len);
    assert(breaks_at(total, len) == ends_line(line));
    if ends_line(line) {
        assert(size_line_end(total, len) == len + 1);
        lemma_size_line_done(s.request, line, left);
    } else {
        assert forall|i: int| 0 <= i < line.len() implies !#[trigger] breaks_at(line, i) by {
            if i < len {
                assert(!breaks_at(s.buffer, i));
            }
        }
    }
}

/// Whatever piece of the stream a read hands over, the parse stays on course.
pub proof fn lemma_data_keeps_course(s: ParserView, rest: Seq<u8>, k: int)
    requires
        consistent(s),
        1 <= k <= rest.len(),
        k <= s.wanted(),
    ensures
        on_course(s, rest, k, on_data(s, rest.take(k)).0, on_data(s, rest.take(k)).1),
{
    match s.phase {
        Phase::Head => lemma_head_block(s, rest),
        Phase::ChunkSize => lemma_size_line_byte(s, rest),
        _ => lemma_body_bytes(s, rest, k),
    }
}

/// When the stream has ended, the parse stays on course.
pub proof fn lemma_eof_keeps_course(s: ParserView)
    requires
        consistent(s),
    ensures
        on_course(s, Seq::empty(), 0, on_eof(s).0, on_eof(s).1),
{
    let none = Seq::<u8>::empty();
    assert(none.skip(0) =~= none);
    match s.phase {
        Phase::Head => {
            let len = s.buffer.len() as int;
            assert(s.buffer + none =~= s.buffer);
            lemma_head_end_from(s.buffer, 0, len);
        },
        Phase::Fixed => {
            assert(fixed_body(none, s.need) =~= zeros(s.need));
        },
        Phase::ChunkSize => {
            let len = s.buffer.len() as int;
            assert(s.buffer + none =~= s.buffer);
            lemma_size_line_from(s.buffer, 0, len);
            if len == 0 {
                lemma_empty_line_has_no_size();
            } else {
                lemma_size_line_done(s.request, s.buffer, none);
            }
        },
        Phase::ChunkData => {
            assert(fixed_body(none, s.need) =~= zeros(s.need));
            assert(skip_up_to(skip_up_to(none, s.need), 2) =~= none);
            assert(skip_up_to(none, 2) =~= none);
            let request = with_more(s.request, zeros(s.need));
            match chunked_body(none) {
                Ok(bytes) => {
                    assert(with_more(request, bytes).body =~= with_more(
                        s.request,
                        zeros(s.need) + bytes,
                    ).body);
                },
                Err(e) => {},
            }
        },
        Phase::ChunkEnd => {
            assert(skip_up_to(none, s.need) =~= none);
            assert(none + none =~= none);
        },
        Phase::Finished => {},
    }
}

/// A failure that is answered by another attempt changes nothing but the
/// count of failures: the parser owes the same answer as before.
pub proof fn lemma_retry_keeps_course(s: ParserView, rest: Seq<u8>, kind: IoErrorKind)
    requires
        consistent(s),
        retries(s.failures, kind),
    ensures
        on_failure(s, kind).1 == ProgressView::RetryAfter(crate::retry::RETRY_DELAY_MS),
        consistent(on_failure(s, kind).0),
        outcome(on_failure(s, kind).0, rest) == outcome(s, rest),
        on_failure(s, kind).0.wanted() == s.wanted(),
{
}

/// The size of a piece, held between one byte and the most that is both
/// wanted and left.
pub open spec fn clipped(size: nat, most: nat) -> nat {
    if size < 1 {
        1
    } else if size > most {
        most
    } else {
        size
    }
}

/// How many bytes the next read takes off a stream that holds `rest`, when
/// the stream offers `size` bytes.
pub open spec fn taken(s: ParserView, rest: Seq<u8>, size: nat) -> nat {
    if rest.len() == 0 {
        0
    } else if s.wanted() < rest.len() {
        clipped(size, s.wanted())
    } else {
        clipped(size, rest.len())
    }
}

/// What the next read gives.
pub open spec fn delivered(s: ParserView, rest: Seq<u8>, size: nat) -> EventView {
    if rest.len() == 0 {
        EventView::Eof
    } else {
        EventView::Data(rest.take(taken(s, rest, size) as int))
    }
}

/// The answer of a parser in state `s` to a stream that holds `rest` and
/// hands it over in pieces of the given sizes, one per read; `None` if the
/// parser wants more reads than there are sizes.
pub open spec fn run(s: ParserView, rest: Seq<u8>, sizes: Seq<nat>) -> Option<
    Result<RequestView, ParseError>,
>
    decreases sizes.len(),
{
    if sizes.len() == 0 {
        None
    } else {
        let k = taken(s, rest, sizes[0]);
        let (next, progress) = step(s, delivered(s, rest, sizes[0]));
        match progress {
            ProgressView::Done(request) => Some(Ok(request)),
            ProgressView::Failed(e) => Some(Err(e)),
            _ => run(next, rest.skip(k as int), sizes.drop_first()),
        }
    }
}

/// However the rest of a stream is cut into pieces, a parser gives the
/// answer it owes, and gives it within its budget of reads.
pub proof fn lemma_run(s: ParserView, rest: Seq<u8>, sizes: Seq<nat>)
    requires
        consistent(s),
    ensures
        run(s, rest, sizes) is Some ==> run(s, rest, sizes) == Some(outcome(s, rest)),
        sizes.len() >= budget(s, rest) ==> run(s, rest, sizes) is Some,
    decreases sizes.len(),
{
    if sizes.len() > 0 {
        let k = taken(s, rest, sizes[0]);
        let (next, progress) = step(s, delivered(s, rest, sizes[0]));
        if rest.len() == 0 {
            lemma_eof_keeps_course(s);
            assert(rest =~= Seq::<u8>::empty());
        } else {
            lemma_data_keeps_course(s, rest, k as int);
        }
        if progress == ProgressView::Continue {
            lemma_run(next, rest.skip(k as int), sizes.drop_first());
        }
    }
}

/// The request that a stream holds does not depend on how the stream is
/// cut: fed piece by piece, in pieces of any sizes, a new parser answers
/// with the request that the bytes hold as a whole, and it answers after
/// at most five reads for each byte and one more.
pub proof fn lemma_pieces_do_not_matter(input: Seq<u8>, sizes: Seq<nat>)
    ensures
        run(ParserView::start(), input, sizes) is Some ==> run(ParserView::start(), input, sizes)
            == Some(request_of(input)),
        sizes.len() >= 5 * input.len() + 1 ==> run(ParserView::start(), input, sizes) == Some(
            request_of(input),
        ),
{
    let s = ParserView::start();
    assert(s.buffer + input =~= input);
    lemma_run(s, input, sizes);
}

/// A declared length above the limit ends the parse at the end of the
/// header block: the answer is `ContentTooLarge`, and the parser wants no
/// byte of the body.
pub proof fn lemma_too_large_reads_no_body(block: Seq<u8>, n: usize)
    requires
        n > MAX_BODY_SIZE,
    ensures
        ({
            let head = head_of(utf8_lossy(block));
            &&& head is Some
            &&& value_of(head->0.headers, "Content-Length"@) is Some
            &&& parse_usize(value_of(head->0.headers, "Content-Length"@)->0, 10) == Some(n)
        }) ==> head_complete(block) == failed(ParseError::ContentTooLarge) && head_complete(
            block,
        ).0.wanted() == 0,
{
}

} // verus!
