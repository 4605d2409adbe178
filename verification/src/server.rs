//! The server without its sockets: the counters, the lifecycle, the
//! breaker, and the decisions of the accept loop.
//!
//! The caller owns the listener and the clock. It asks the server what to
//! do on each turn of the loop, does it, and reports what happened.

use crate::clock::utc_now_millis;
use crate::connection::{finish_render, plan, routed, early_reply, parsed_view, rendered_view, Outcome, Page};
use crate::http::{ParseError, Request, Response};
use crate::middleware::{after_chain, Middleware};
use crate::router::{default_routes, RouteTable, RouteView};
use crate::threadpool::ThreadPoolError;
use vstd::prelude::*;
use vstd::std_specs::convert::FromSpecImpl;

verus! {

/// How many failures in a row open the breaker.
pub const MAX_CONSECUTIVE_ERRORS: usize = 10;

/// For how many milliseconds after the last failure the breaker stays
/// open, and for how long the loop pauses before it gives up.
pub const ERROR_RECOVERY_MS: u64 = 5000;

/// The deadline for reading from and writing to a connection, in
/// milliseconds.
pub const REQUEST_TIMEOUT_MS: u64 = 30000;

/// Where the server is in its life. It only moves forward.
#[derive(Debug, Clone, Copy, PartialEq, Eq, Structural)]
pub enum Lifecycle {
    Running,
    ShuttingDown,
    ShutdownComplete,
}

impl Lifecycle {
    /// The number of the state: 0, 1 or 2.
    pub open spec fn code(self) -> nat {
        match self {
            Lifecycle::Running => 0,
            Lifecycle::ShuttingDown => 1,
            Lifecycle::ShutdownComplete => 2,
        }
    }

    /// The state after a shutdown was asked for: a running server is
    /// shutting down, any other stays as it is.
    pub open spec fn shut_down(self) -> Lifecycle {
        match self {
            Lifecycle::Running => Lifecycle::ShuttingDown,
            other => other,
        }
    }

    /// The state after the loop has ended and the pool is drained: a server
    /// that was shutting down has shut down, any other stays as it is.
    pub open spec fn completed(self) -> Lifecycle {
        match self {
            Lifecycle::ShuttingDown => Lifecycle::ShutdownComplete,
            other => other,
        }
    }

    /// The number of the state: 0, 1 or 2.
    pub fn as_code(&self) -> (n: usize)
        ensures
            n == self.code(),
    {
        match self {
            Lifecycle::Running => 0,
            Lifecycle::ShuttingDown => 1,
            Lifecycle::ShutdownComplete => 2,
        }
    }
}

/// The lifecycle never goes back, and a server that has left `Running`
/// does not return to it.
pub proof fn lemma_lifecycle_only_advances(l: Lifecycle)
    ensures
        l.code() <= l.shut_down().code() <= 2,
        l.code() <= l.completed().code() <= 2,
        l != Lifecycle::Running ==> l.shut_down() != Lifecycle::Running && l.completed()
            != Lifecycle::Running,
        l.shut_down() != Lifecycle::Running,
{
}

/// Why the server stopped, or did not start.
#[derive(Debug)]
pub enum ServerError {
    /// An I/O failure, in the words of the system.
    IoError(String),
    /// The pool refused.
    ThreadPoolError(ThreadPoolError),
    /// A shutdown is under way.
    ShuttingDown,
    /// Too many failures in a row.
    TooManyErrors,
}

impl ServerError {
    /// The error in words.
    pub open spec fn text(self) -> Seq<char> {
        match self {
            ServerError::IoError(why) => "IO Error: "@ + why@,
            ServerError::ThreadPoolError(e) => "Thread Pool Error: "@ + e.text(),
            ServerError::ShuttingDown => "Server is shutting down"@,
            ServerError::TooManyErrors => "Too many consecutive errors"@,
        }
    }

    /// The error in words.
    pub fn message(&self) -> (s: String)
        ensures
            s@ == self.text(),
    {
        match self {
            ServerError::IoError(why) => {
                let mut s = String::from_str("IO Error: ");
                s.append(why.as_str());
                s
            },
            ServerError::ThreadPoolError(e) => {
                let mut s = String::from_str("Thread Pool Error: ");
                s.append(e.message().as_str());
                s
            },
            ServerError::ShuttingDown => String::from_str("Server is shutting down"),
            ServerError::TooManyErrors => String::from_str("Too many consecutive errors"),
        }
    }
}

impl From<ThreadPoolError> for ServerError {
    fn from(error: ThreadPoolError) -> (e: ServerError) {
        ServerError::ThreadPoolError(error)
    }
}

impl FromSpecImpl<ThreadPoolError> for ServerError {
    open spec fn obeys_from_spec() -> bool {
        true
    }

    open spec fn from_spec(error: ThreadPoolError) -> ServerError {
        ServerError::ThreadPoolError(error)
    }
}

/// A counter after one more was counted. It starts again at zero when it
/// is full.
pub open spec fn next_count(n: usize) -> usize {
    if n == usize::MAX {
        0
    } else {
        (n + 1) as usize
    }
}

fn bump(n: usize) -> (m: usize)
    ensures
        m == next_count(n),
{
    if n == usize::MAX {
        0
    } else {
        n + 1
    }
}

/// What the server knows of its past.
pub struct StateView {
    /// When the server started, in milliseconds.
    pub start_time: i64,
    /// How many connections were accepted.
    pub request_count: usize,
    /// How many accepts and connections failed.
    pub error_count: usize,
    /// How many failed since the last accept that succeeded.
    pub consecutive_errors: usize,
    /// When the last failure was, in milliseconds.
    pub last_error_time: i64,
    /// The route table.
    pub routes: Seq<RouteView>,
}

impl StateView {
    /// The state of a server that starts at `now`.
    pub open spec fn started(now: i64) -> StateView {
        StateView {
            start_time: now,
            request_count: 0,
            error_count: 0,
            consecutive_errors: 0,
            last_error_time: now,
            routes: default_routes(),
        }
    }

    /// The state after a connection was accepted.
    pub open spec fn accepted(self) -> StateView {
        StateView { consecutive_errors: 0, request_count: next_count(self.request_count), ..self }
    }

    /// The state after an accept, a submission or a connection failed at `now`.
    pub open spec fn failed(self, now: i64) -> StateView {
        StateView {
            error_count: next_count(self.error_count),
            consecutive_errors: next_count(self.consecutive_errors),
            last_error_time: now,
            ..self
        }
    }

    /// The state after the breaker was reset.
    pub open spec fn reset(self) -> StateView {
        StateView { consecutive_errors: 0, ..self }
    }

    /// Whether the breaker is open at `now`: ten or more failures in a row,
    /// the last of them less than five seconds ago.
    pub open spec fn breaker_open(self, now: i64) -> bool {
        self.consecutive_errors >= MAX_CONSECUTIVE_ERRORS && now - self.last_error_time
            < ERROR_RECOVERY_MS
    }

    /// The state after failures at the times `times`, one after the other.
    pub open spec fn after_failures(self, times: Seq<i64>) -> StateView
        decreases times.len(),
    {
        if times.len() == 0 {
            self
        } else {
            self.after_failures(times.drop_last()).failed(times.last())
        }
    }
}

/// The counts of requests and of errors do not fall, as long as they have
/// not reached the largest number a counter holds.
pub proof fn lemma_counts_never_fall(state: StateView, now: i64)
    requires
        state.request_count < usize::MAX,
        state.error_count < usize::MAX,
    ensures
        state.accepted().request_count == state.request_count + 1,
        state.accepted().error_count == state.error_count,
        state.failed(now).request_count == state.request_count,
        state.failed(now).error_count == state.error_count + 1,
        state.reset().request_count == state.request_count,
        state.reset().error_count == state.error_count,
{
}

/// An accept that succeeds ends a run of failures; a failure lengthens it.
pub proof fn lemma_consecutive_errors(state: StateView, now: i64)
    ensures
        state.accepted().consecutive_errors == 0,
        state.consecutive_errors < usize::MAX ==> state.failed(now).consecutive_errors
            == state.consecutive_errors + 1,
{
}

/// Failures in a row add up.
pub proof fn lemma_after_failures(state: StateView, times: Seq<i64>)
    requires
        state.consecutive_errors + times.len() <= usize::MAX,
    ensures
        state.after_failures(times).consecutive_errors == state.consecutive_errors + times.len(),
        times.len() > 0 ==> state.after_failures(times).last_error_time == times.last(),
        state.after_failures(times).request_count == state.request_count,
    decreases times.len(),
{
    if times.len() > 0 {
        lemma_after_failures(state, times.drop_last());
    }
}

/// Ten failures in a row open the breaker for five seconds: on a turn
/// within five seconds of the last of them, a running server trips.
pub proof fn lemma_ten_failures_trip(state: StateView, times: Seq<i64>, now: i64)
    requires
        times.len() >= 10,
        state.consecutive_errors + times.len() <= usize::MAX,
        now - times.last() < ERROR_RECOVERY_MS,
    ensures
        state.after_failures(times).breaker_open(now),
        turn_of(Lifecycle::Running, state.after_failures(times), now) == Turn::Trip(
            ERROR_RECOVERY_MS,
        ),
{
    lemma_after_failures(state, times);
}

/// What to do on a turn of the accept loop.
#[derive(Debug, Clone, Copy, PartialEq, Eq, Structural)]
pub enum Turn {
    /// Accept a connection.
    Accept,
    /// The breaker is open: pause for this many milliseconds, then give up
    /// with [`Server::trip`].
    Trip(u64),
    /// The loop is over: the server is no longer running.
    Stop,
}

/// What to do on a turn at `now`. A server that is not running stops; a
/// running server trips if its breaker is open, and accepts otherwise.
pub open spec fn turn_of(lifecycle: Lifecycle, state: StateView, now: i64) -> Turn {
    if lifecycle != Lifecycle::Running {
        Turn::Stop
    } else if state.breaker_open(now) {
        Turn::Trip(ERROR_RECOVERY_MS)
    } else {
        Turn::Accept
    }
}

/// Once a shutdown was asked for, no connection is accepted: whatever
/// happens afterwards, the loop is told to stop.
pub proof fn lemma_no_accept_after_shutdown(lifecycle: Lifecycle, state: StateView, now: i64)
    ensures
        turn_of(lifecycle.shut_down(), state, now) == Turn::Stop,
        turn_of(lifecycle.shut_down().completed(), state, now) == Turn::Stop,
        turn_of(lifecycle.shut_down().shut_down(), state, now) == Turn::Stop,
{
}

/// The counters, the time of the last failure, and the route table.
#[derive(Debug)]
pub struct ServerState {
    start_time: i64,
    request_count: usize,
    error_count: usize,
    consecutive_errors: usize,
    last_error_time: i64,
    routes: RouteTable,
}

impl View for ServerState {
    type V = StateView;

    closed spec fn view(&self) -> StateView {
        StateView {
            start_time: self.start_time,
            request_count: self.request_count,
            error_count: self.error_count,
            consecutive_errors: self.consecutive_errors,
            last_error_time: self.last_error_time,
            routes: self.routes@,
        }
    }
}

impl ServerState {
    /// The state of a server that starts at `now`, with the default routes.
    pub fn started_at(now: i64) -> (s: ServerState)
        ensures
            s@ == StateView::started(now),
    {
        ServerState {
            start_time: now,
            request_count: 0,
            error_count: 0,
            consecutive_errors: 0,
            last_error_time: now,
            routes: RouteTable::with_default_routes(),
        }
    }

    /// When the server started, in milliseconds.
    pub fn start_time(&self) -> (t: i64)
        ensures
            t == self@.start_time,
    {
        self.start_time
    }

    /// How many connections were accepted.
    pub fn request_count(&self) -> (n: usize)
        ensures
            n == self@.request_count,
    {
        self.request_count
    }

    /// How many accepts and connections failed.
    pub fn error_count(&self) -> (n: usize)
        ensures
            n == self@.error_count,
    {
        self.error_count
    }

    /// How many failed since the last accept that succeeded.
    pub fn consecutive_errors(&self) -> (n: usize)
        ensures
            n == self@.consecutive_errors,
    {
        self.consecutive_errors
    }

    /// When the last failure was, in milliseconds.
    pub fn last_error_time(&self) -> (t: i64)
        ensures
            t == self@.last_error_time,
    {
        self.last_error_time
    }

    /// The route table.
    pub fn routes(&self) -> (t: &RouteTable)
        ensures
            t@ == self@.routes,
    {
        &self.routes
    }

    /// Notes that a connection was accepted.
    pub fn record_accept(&mut self)
        ensures
            final(self)@ == old(self)@.accepted(),
    {
        self.consecutive_errors = 0;
        self.request_count = bump(self.request_count);
    }

    /// Notes a failure at `now`.
    pub fn record_failure_at(&mut self, now: i64)
        ensures
            final(self)@ == old(self)@.failed(now),
    {
        self.error_count = bump(self.error_count);
        self.consecutive_errors = bump(self.consecutive_errors);
        self.last_error_time = now;
    }

    /// Notes a failure at the time the clock shows.
    pub fn record_failure(&mut self)
        ensures
            exists|now: i64| final(self)@ == #[trigger] old(self)@.failed(now),
    {
        let now = utc_now_millis();
        self.record_failure_at(now);
    }

    /// Ends the run of failures.
    pub fn reset_breaker(&mut self)
        ensures
            final(self)@ == old(self)@.reset(),
    {
        self.consecutive_errors = 0;
    }

    /// Whether the breaker is open at `now`.
    pub fn breaker_open_at(&self, now: i64) -> (r: bool)
        ensures
            r == self@.breaker_open(now),
    {
        self.consecutive_errors >= MAX_CONSECUTIVE_ERRORS && (now as i128)
            - (self.last_error_time as i128) < (ERROR_RECOVERY_MS as i128)
    }
}

/// What a [`Server`] holds.
pub struct ServerView {
    /// The number of workers the server was made for.
    pub workers: usize,
    /// The stages of the pipeline, in the order in which they were added.
    pub stages: Seq<Box<dyn Middleware>>,
    pub state: StateView,
    pub lifecycle: Lifecycle,
}

impl ServerView {
    /// A server that starts at `now`.
    pub open spec fn started(workers: usize, now: i64) -> ServerView {
        ServerView {
            workers,
            stages: Seq::empty(),
            state: StateView::started(now),
            lifecycle: Lifecycle::Running,
        }
    }
}

/// The server: its pipeline, its state and its lifecycle.
pub struct Server {
    workers: usize,
    middleware: Vec<Box<dyn Middleware>>,
    state: ServerState,
    lifecycle: Lifecycle,
}

impl View for Server {
    type V = ServerView;

    closed spec fn view(&self) -> ServerView {
        ServerView {
            workers: self.workers,
            stages: self.middleware@,
            state: self.state@,
            lifecycle: self.lifecycle,
        }
    }
}

impl Server {
    /// A server for `workers` workers that starts at `now`: running, with
    /// the default routes and no middleware. A server without workers is
    /// refused.
    pub fn started_at(workers: usize, now: i64) -> (r: Result<Server, ServerError>)
        ensures
            workers == 0 ==> (r matches Err(ServerError::ThreadPoolError(
                ThreadPoolError::InvalidSize,
            ))),
            workers > 0 ==> r is Ok && r->Ok_0@ == ServerView::started(workers, now),
    {
        if workers == 0 {
            return Err(ServerError::from(ThreadPoolError::InvalidSize));
        }
        Ok(
            Server {
                workers,
                middleware: Vec::new(),
                state: ServerState::started_at(now),
                lifecycle: Lifecycle::Running,
            },
        )
    }

    /// A server for `workers` workers that starts at the time the clock shows.
    pub fn new(workers: usize) -> (r: Result<Server, ServerError>)
        ensures
            workers == 0 ==> (r matches Err(ServerError::ThreadPoolError(
                ThreadPoolError::InvalidSize,
            ))),
            workers > 0 ==> r is Ok && exists|now: i64|
                r->Ok_0@ == #[trigger] ServerView::started(workers, now),
    {
        let now = utc_now_millis();
        Server::started_at(workers, now)
    }

    /// The server with one more stage at the end of its pipeline.
    pub fn with_middleware(self, stage: Box<dyn Middleware>) -> (s: Server)
        ensures
            s@ == (ServerView { stages: self@.stages.push(stage), ..self@ }),
    {
        let mut server = self;
        server.middleware.push(stage);
        server
    }

    /// The number of workers the server was made for.
    pub fn workers(&self) -> (n: usize)
        ensures
            n == self@.workers,
    {
        self.workers
    }

    /// The stages of the pipeline.
    pub fn stages(&self) -> (stages: &[Box<dyn Middleware>])
        ensures
            stages@ == self@.stages,
    {
        self.middleware.as_slice()
    }

    /// The state of the server.
    pub fn state(&self) -> (state: &ServerState)
        ensures
            state@ == self@.state,
    {
        &self.state
    }

    /// Where the server is in its life.
    pub fn lifecycle(&self) -> (l: Lifecycle)
        ensures
            l == self@.lifecycle,
    {
        self.lifecycle
    }

    /// Asks the server to shut down. Asking again changes nothing.
    pub fn shutdown(&mut self) -> (r: Result<(), ServerError>)
        ensures
            r is Ok,
            final(self)@ == (ServerView {
                lifecycle: old(self)@.lifecycle.shut_down(),
                ..old(self)@
            }),
    {
        match self.lifecycle {
            Lifecycle::Running => {
                self.lifecycle = Lifecycle::ShuttingDown;
            },
            _ => {},
        }
        Ok(())
    }

    /// Notes that the loop has ended and the pool is drained.
    pub fn complete_shutdown(&mut self)
        ensures
            final(self)@ == (ServerView {
                lifecycle: old(self)@.lifecycle.completed(),
                ..old(self)@
            }),
    {
        match self.lifecycle {
            Lifecycle::ShuttingDown => {
                self.lifecycle = Lifecycle::ShutdownComplete;
            },
            _ => {},
        }
    }

    /// What to do on a turn of the accept loop at `now`.
    pub fn turn_at(&self, now: i64) -> (t: Turn)
        ensures
            t == turn_of(self@.lifecycle, self@.state, now),
    {
        if self.lifecycle != Lifecycle::Running {
            Turn::Stop
        } else if self.state.breaker_open_at(now) {
            Turn::Trip(ERROR_RECOVERY_MS)
        } else {
            Turn::Accept
        }
    }

    /// What to do on a turn of the accept loop, at the time the clock shows.
    pub fn turn(&self) -> (t: Turn)
        ensures
            exists|now: i64| t == #[trigger] turn_of(self@.lifecycle, self@.state, now),
            self@.lifecycle != Lifecycle::Running ==> t == Turn::Stop,
    {
        let now = utc_now_millis();
        self.turn_at(now)
    }

    /// Gives up after the breaker has opened and the pause is over: the run
    /// of failures starts again at zero, and the loop ends with
    /// `TooManyErrors`.
    pub fn trip(&mut self) -> (e: ServerError)
        ensures
            e matches ServerError::TooManyErrors,
            final(self)@ == (ServerView { state: old(self)@.state.reset(), ..old(self)@ }),
    {
        self.state.reset_breaker();
        ServerError::TooManyErrors
    }

    /// Whether a connection may still be accepted: not once a shutdown was
    /// asked for.
    pub fn before_accept(&self) -> (r: Result<(), ServerError>)
        ensures
            self@.lifecycle == Lifecycle::Running ==> r is Ok,
            self@.lifecycle != Lifecycle::Running ==> (r matches Err(ServerError::ShuttingDown)),
    {
        if self.lifecycle == Lifecycle::Running {
            Ok(())
        } else {
            Err(ServerError::ShuttingDown)
        }
    }

    /// Whether a job that was queued may still handle its connection: not
    /// once a shutdown was asked for.
    pub fn admits_job(&self) -> (r: bool)
        ensures
            r == (self@.lifecycle == Lifecycle::Running),
    {
        self.lifecycle == Lifecycle::Running
    }

    /// Notes that a connection was accepted.
    pub fn accepted(&mut self)
        ensures
            final(self)@ == (ServerView { state: old(self)@.state.accepted(), ..old(self)@ }),
    {
        self.state.record_accept();
    }

    /// Notes that an accept, a submission to the pool, or the handling of a
    /// connection failed at `now`. The loop goes on.
    pub fn failed_at(&mut self, now: i64)
        ensures
            final(self)@ == (ServerView { state: old(self)@.state.failed(now), ..old(self)@ }),
    {
        self.state.record_failure_at(now);
    }

    /// Notes a failure at the time the clock shows.
    pub fn failed(&mut self)
        ensures
            exists|now: i64|
                final(self)@ == (ServerView {
                    state: #[trigger] old(self)@.state.failed(now),
                    ..old(self)@
                }),
    {
        let now = utc_now_millis();
        self.failed_at(now);
    }

    /// Decides what becomes of a connection whose request was read with
    /// the result `parsed`, with the routes and the pipeline of this server.
    pub fn respond(&self, parsed: Result<Request, ParseError>) -> (out: Outcome)
        ensures
            match parsed {
                Err(ParseError::IoError(kind)) => out matches Outcome::Abort(k) && k == kind,
                _ => match early_reply(parsed_view(parsed)) {
                    Some(reply) => out matches Outcome::Send(response) && response@ == reply,
                    None => parsed is Ok && routed(
                        self@.state.routes,
                        self@.stages,
                        parsed->Ok_0@,
                        out,
                    ),
                },
            },
    {
        plan(parsed, self.state.routes(), self.middleware.as_slice())
    }

    /// Makes the response of a rendered page, and lets the pipeline see it.
    pub fn finish(&self, page: Page, body: Vec<u8>, request: &Request) -> (response: Response)
        ensures
            after_chain(self@.stages, request@, rendered_view(page, body@), response@),
    {
        finish_render(page, body, request, self.middleware.as_slice())
    }
}

} // verus!
