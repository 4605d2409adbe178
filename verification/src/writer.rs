//! Sending a response piece by piece.
//!
//! Like the parser, the writer does no I/O. It says what to do next (write
//! the bytes from some place on, or flush), is told how that went, and
//! answers with what follows.

use crate::http::IoErrorKind;
use crate::retry::{retries, Retry, RetryDecision, RETRY_DELAY_MS};
use vstd::prelude::*;

verus! {

/// What the writer is doing.
#[derive(Debug, Clone, Copy, PartialEq, Eq, Structural)]
pub enum WritePhase {
    /// Writing the bytes.
    Writing,
    /// Flushing the stream, all bytes being written.
    Flushing,
    /// Nothing any more.
    Finished,
}

/// How a write or a flush went.
#[derive(Debug, Clone, Copy, PartialEq, Eq, Structural)]
pub enum WriteEvent {
    /// The write took this many bytes.
    Wrote(usize),
    /// The flush succeeded.
    Flushed,
    /// The write or the flush failed.
    Failed(IoErrorKind),
}

/// What to do next.
#[derive(Debug, Clone, Copy, PartialEq, Eq, Structural)]
pub enum WriteAction {
    /// Write the bytes of the response from this place on.
    Write(usize),
    /// Flush the stream.
    Flush,
    /// Nothing: the writer has finished.
    Nothing,
}

/// What the writer says after an event.
#[derive(Debug, Clone, Copy, PartialEq, Eq, Structural)]
pub enum WriteProgress {
    /// Do the next action.
    Continue,
    /// Pause for this many milliseconds, then do the next action.
    RetryAfter(u64),
    /// The response is sent.
    Done,
    /// The response cannot be sent.
    Failed(IoErrorKind),
}

/// The state of a writer.
pub struct WriterView {
    pub phase: WritePhase,
    /// The length of the response.
    pub total: nat,
    /// How many of its bytes are written.
    pub written: nat,
    /// The transient failures since the last success.
    pub failures: nat,
}

impl WriterView {
    /// The state before anything is written. A response without bytes is
    /// flushed at once.
    pub open spec fn start(total: nat) -> WriterView {
        WriterView {
            phase: if total == 0 {
                WritePhase::Flushing
            } else {
                WritePhase::Writing
            },
            total,
            written: 0,
            failures: 0,
        }
    }

    /// What to do in this state.
    pub open spec fn action(self) -> WriteAction {
        match self.phase {
            WritePhase::Writing => WriteAction::Write(self.written as usize),
            WritePhase::Flushing => WriteAction::Flush,
            WritePhase::Finished => WriteAction::Nothing,
        }
    }

    /// Whether the event can follow the action of this state: a write takes
    /// no more bytes than are left, and only a flush is flushed.
    pub open spec fn admits(self, event: WriteEvent) -> bool {
        match event {
            WriteEvent::Wrote(n) => self.phase == WritePhase::Writing && self.written + n
                <= self.total,
            WriteEvent::Flushed => self.phase == WritePhase::Flushing,
            WriteEvent::Failed(_) => self.phase != WritePhase::Finished,
        }
    }
}

/// The state and the answer that follow an event.
pub open spec fn write_step(s: WriterView, event: WriteEvent) -> (WriterView, WriteProgress) {
    match event {
        WriteEvent::Wrote(n) => {
            let written = (s.written + n) as nat;
            (
                WriterView {
                    phase: if written == s.total {
                        WritePhase::Flushing
                    } else {
                        WritePhase::Writing
                    },
                    written,
                    failures: 0,
                    ..s
                },
                WriteProgress::Continue,
            )
        },
        WriteEvent::Flushed => (
            WriterView { phase: WritePhase::Finished, failures: 0, ..s },
            WriteProgress::Done,
        ),
        WriteEvent::Failed(kind) => if retries(s.failures, kind) {
            (WriterView { failures: s.failures + 1, ..s }, WriteProgress::RetryAfter(RETRY_DELAY_MS))
        } else {
            (WriterView { phase: WritePhase::Finished, ..s }, WriteProgress::Failed(kind))
        },
    }
}

/// Sends one response.
#[derive(Debug)]
pub struct ResponseWriter {
    phase: WritePhase,
    total: usize,
    written: usize,
    retry: Retry,
}

impl View for ResponseWriter {
    type V = WriterView;

    closed spec fn view(&self) -> WriterView {
        WriterView {
            phase: self.phase,
            total: self.total as nat,
            written: self.written as nat,
            failures: self.retry@,
        }
    }
}

impl ResponseWriter {
    #[verifier::type_invariant]
    spec fn within_the_response(self) -> bool {
        &&& self.written <= self.total
        &&& self.phase == WritePhase::Writing ==> self.written < self.total
        &&& self.phase == WritePhase::Flushing ==> self.written == self.total
    }

    /// A writer for a response of `total` bytes.
    pub fn new(total: usize) -> (w: ResponseWriter)
        ensures
            w@ == WriterView::start(total as nat),
    {
        ResponseWriter {
            phase: if total == 0 {
                WritePhase::Flushing
            } else {
                WritePhase::Writing
            },
            total,
            written: 0,
            retry: Retry::new(),
        }
    }

    /// What to do next. A write starts within the response; a flush comes
    /// when all of it is written.
    pub fn action(&self) -> (a: WriteAction)
        ensures
            a == self@.action(),
            self@.written <= self@.total,
            a is Write ==> self@.written < self@.total,
            a is Flush ==> self@.written == self@.total,
    {
        proof {
            use_type_invariant(self);
        }
        match self.phase {
            WritePhase::Writing => WriteAction::Write(self.written),
            WritePhase::Flushing => WriteAction::Flush,
            WritePhase::Finished => WriteAction::Nothing,
        }
    }

    /// Takes how the last action went and says what follows. After `Done`
    /// and after `Failed` the writer has finished.
    pub fn feed(&mut self, event: WriteEvent) -> (p: WriteProgress)
        requires
            old(self)@.admits(event),
        ensures
            (final(self)@, p) == write_step(old(self)@, event),
            p is Done ==> final(self)@.written == final(self)@.total,
    {
        proof {
            use_type_invariant(&*self);
        }
        match event {
            WriteEvent::Wrote(n) => {
                let written = self.written + n;
                let phase = if written == self.total {
                    WritePhase::Flushing
                } else {
                    WritePhase::Writing
                };
                let retry = Retry::new();
                *self = ResponseWriter { phase, total: self.total, written, retry };
                WriteProgress::Continue
            },
            WriteEvent::Flushed => {
                let retry = Retry::new();
                *self = ResponseWriter {
                    phase: WritePhase::Finished,
                    total: self.total,
                    written: self.written,
                    retry,
                };
                WriteProgress::Done
            },
            WriteEvent::Failed(kind) => {
                let mut retry = self.retry;
                match retry.on_failure(kind) {
                    RetryDecision::Again(millis) => {
                        *self = ResponseWriter {
                            phase: self.phase,
                            total: self.total,
                            written: self.written,
                            retry,
                        };
                        WriteProgress::RetryAfter(millis)
                    },
                    RetryDecision::GiveUp => {
                        *self = ResponseWriter {
                            phase: WritePhase::Finished,
                            total: self.total,
                            written: self.written,
                            retry,
                        };
                        WriteProgress::Failed(kind)
                    },
                }
            },
        }
    }
}

} // verus!
