//! Middleware: stages that see every routed request before it is
//! dispatched, and every response before it is sent.
//!
//! A stage may change the request and may put a response of its own in
//! place of the handler's. After dispatch it may change the headers of the
//! response, and nothing else of it.

use crate::clock::elapsed_millis;
use crate::headers::put;
use crate::http::{Request, RequestView, Response, ResponseView};
use crate::text::{decimal_digits, decimal_string};
use vstd::prelude::*;

verus! {

/// What an optional response holds.
pub open spec fn reply_view(reply: Option<Response>) -> Option<ResponseView> {
    match reply {
        Some(response) => Some(response@),
        None => None,
    }
}

/// Whether two responses differ in their headers at most.
pub open spec fn same_but_headers(before: ResponseView, after: ResponseView) -> bool {
    &&& after.status_code == before.status_code
    &&& after.status_text == before.status_text
    &&& after.body == before.body
}

/// A stage of the pipeline.
pub trait Middleware: Send + Sync {
    /// Whether `process` may turn the request `before` into `after` and
    /// answer with `reply`. A stage that says nothing of itself may do
    /// anything.
    open spec fn processes(
        &self,
        before: RequestView,
        after: RequestView,
        reply: Option<ResponseView>,
    ) -> bool {
        true
    }

    /// Whether `after` may turn the response `before` into `after`. A stage
    /// that says nothing of itself may do anything to the headers.
    open spec fn finishes(&self, request: RequestView, before: ResponseView, after: ResponseView) -> bool {
        true
    }

    /// Sees the request before dispatch. A response returned here takes the
    /// place of the handler's.
    fn process(&self, request: &mut Request) -> (reply: Option<Response>)
        ensures
            self.processes(old(request)@, final(request)@, reply_view(reply)),
    ;

    /// Sees the response before it is sent. Only its headers may change.
    fn after(&self, request: &Request, response: &mut Response)
        ensures
            self.finishes(request@, old(response)@, final(response)@),
            same_but_headers(old(response)@, final(response)@),
    ;
}

/// Marks each request with the time at which it was seen.
pub struct LoggingMiddleware;

impl LoggingMiddleware {
    /// `request` with the header `x-start-time` set to `millis` in decimal.
    pub open spec fn stamped(request: RequestView, millis: u128) -> RequestView {
        RequestView {
            headers: put(request.headers, "x-start-time"@, decimal_digits(millis as nat)),
            ..request
        }
    }

    /// Sets the header `x-start-time` of `request` to `millis` in decimal.
    pub fn stamp(request: &mut Request, millis: u128)
        ensures
            final(request)@ == LoggingMiddleware::stamped(old(request)@, millis),
    {
        request.headers.insert(String::from_str("x-start-time"), decimal_string(millis));
    }
}

impl Middleware for LoggingMiddleware {
    open spec fn processes(
        &self,
        before: RequestView,
        after: RequestView,
        reply: Option<ResponseView>,
    ) -> bool {
        reply is None && exists|millis: u128|
            after == #[trigger] LoggingMiddleware::stamped(before, millis)
    }

    open spec fn finishes(&self, request: RequestView, before: ResponseView, after: ResponseView) -> bool {
        after == before
    }

    /// Stamps the request with a reading of the clock, and lets it pass.
    fn process(&self, request: &mut Request) -> (reply: Option<Response>) {
        let millis = elapsed_millis();
        LoggingMiddleware::stamp(request, millis);
        None
    }

    /// Leaves the response as it is.
    fn after(&self, request: &Request, response: &mut Response) {
    }
}

/// Adds the headers that tell a browser to be careful.
pub struct SecurityHeadersMiddleware;

impl SecurityHeadersMiddleware {
    /// `response` with the three security headers set.
    pub open spec fn secured(response: ResponseView) -> ResponseView {
        ResponseView {
            headers: put(
                put(
                    put(response.headers, "X-Content-Type-Options"@, "nosniff"@),
                    "X-Frame-Options"@,
                    "DENY"@,
                ),
                "X-XSS-Protection"@,
                "1; mode=block"@,
            ),
            ..response
        }
    }
}

impl Middleware for SecurityHeadersMiddleware {
    open spec fn processes(
        &self,
        before: RequestView,
        after: RequestView,
        reply: Option<ResponseView>,
    ) -> bool {
        reply is None && after == before
    }

    open spec fn finishes(&self, request: RequestView, before: ResponseView, after: ResponseView) -> bool {
        after == SecurityHeadersMiddleware::secured(before)
    }

    /// Lets the request pass.
    fn process(&self, request: &mut Request) -> (reply: Option<Response>) {
        None
    }

    /// Sets `X-Content-Type-Options`, `X-Frame-Options` and
    /// `X-XSS-Protection`.
    fn after(&self, request: &Request, response: &mut Response) {
        response.headers.insert(
            String::from_str("X-Content-Type-Options"),
            String::from_str("nosniff"),
        );
        response.headers.insert(String::from_str("X-Frame-Options"), String::from_str("DENY"));
        response.headers.insert(
            String::from_str("X-XSS-Protection"),
            String::from_str("1; mode=block"),
        );
    }
}

/// Watches for error responses. It changes nothing.
pub struct ErrorHandlingMiddleware;

impl ErrorHandlingMiddleware {
    /// Whether a response reports an error: its status is 400 or above.
    pub open spec fn reports_error(response: ResponseView) -> bool {
        response.status_code >= 400
    }

    /// Whether a response reports an error.
    pub fn is_error(response: &Response) -> (r: bool)
        ensures
            r == ErrorHandlingMiddleware::reports_error(response@),
    {
        response.status_code >= 400
    }
}

impl Middleware for ErrorHandlingMiddleware {
    open spec fn processes(
        &self,
        before: RequestView,
        after: RequestView,
        reply: Option<ResponseView>,
    ) -> bool {
        reply is None && after == before
    }

    open spec fn finishes(&self, request: RequestView, before: ResponseView, after: ResponseView) -> bool {
        after == before
    }

    /// Lets the request pass.
    fn process(&self, request: &mut Request) -> (reply: Option<Response>) {
        None
    }

    /// Leaves the response as it is.
    fn after(&self, request: &Request, response: &mut Response) {
    }
}

/// The reply of the last stage that gave one.
pub open spec fn last_given(given: Seq<Option<ResponseView>>) -> Option<ResponseView>
    decreases given.len(),
{
    if given.len() == 0 {
        None
    } else if given.last() is Some {
        given.last()
    } else {
        last_given(given.drop_last())
    }
}

/// Whether the stages, run in order, may pass the request through the
/// states `requests` and give the replies `given`: each stage sees the
/// request as the stage before it left it.
pub open spec fn before_trace(
    stages: Seq<Box<dyn Middleware>>,
    requests: Seq<RequestView>,
    given: Seq<Option<ResponseView>>,
) -> bool {
    &&& requests.len() == stages.len() + 1
    &&& given.len() == stages.len()
    &&& forall|i: int|
        #![trigger stages[i]]
        0 <= i < stages.len() ==> stages[i].processes(requests[i], requests[i + 1], given[i])
}

/// Whether the stages, run in order on the request `before`, may leave the
/// request `after` and the reply `reply`. The reply is that of the last
/// stage that gave one.
pub open spec fn before_chain(
    stages: Seq<Box<dyn Middleware>>,
    before: RequestView,
    after: RequestView,
    reply: Option<ResponseView>,
) -> bool {
    exists|requests: Seq<RequestView>, given: Seq<Option<ResponseView>>|
        {
            &&& #[trigger] before_trace(stages, requests, given)
            &&& requests[0] == before
            &&& requests.last() == after
            &&& reply == last_given(given)
        }
}

/// Whether the stages, run in order, may pass the response through the
/// states `responses`.
pub open spec fn after_trace(
    stages: Seq<Box<dyn Middleware>>,
    request: RequestView,
    responses: Seq<ResponseView>,
) -> bool {
    &&& responses.len() == stages.len() + 1
    &&& forall|i: int|
        #![trigger stages[i]]
        0 <= i < stages.len() ==> stages[i].finishes(request, responses[i], responses[i + 1])
}

/// Whether the stages, run in order on the response `before`, may leave the
/// response `after`.
pub open spec fn after_chain(
    stages: Seq<Box<dyn Middleware>>,
    request: RequestView,
    before: ResponseView,
    after: ResponseView,
) -> bool {
    exists|responses: Seq<ResponseView>|
        {
            &&& #[trigger] after_trace(stages, request, responses)
            &&& responses[0] == before
            &&& responses.last() == after
        }
}

/// Runs the stages on a request, in the order in which they were
/// registered. Returns the reply of the last stage that gave one.
pub fn run_before(stages: &[Box<dyn Middleware>], request: &mut Request) -> (reply: Option<
    Response,
>)
    ensures
        before_chain(stages@, old(request)@, final(request)@, reply_view(reply)),
{
    let mut reply: Option<Response> = None;
    let mut i: usize = 0;
    let ghost mut requests: Seq<RequestView> = seq![request@];
    let ghost mut given: Seq<Option<ResponseView>> = Seq::empty();
    while i < stages.len()
        invariant
            i <= stages@.len(),
            requests.len() == i + 1,
            given.len() == i,
            requests[0] == old(request)@,
            requests.last() == request@,
            reply_view(reply) == last_given(given),
            forall|j: int|
                #![trigger stages@[j]]
                0 <= j < i ==> stages@[j].processes(requests[j], requests[j + 1], given[j]),
        decreases stages@.len() - i,
    {
        let own = stages[i].process(request);
        proof {
            let ghost own_view = reply_view(own);
            assert(given.push(own_view).drop_last() =~= given);
            requests = requests.push(request@);
            given = given.push(own_view);
        }
        match own {
            Some(response) => {
                reply = Some(response);
            },
            None => {},
        }
        i = i + 1;
    }
    proof {
        assert(before_trace(stages@, requests, given));
    }
    reply
}

/// Runs the stages on a response, in the order in which they were
/// registered. The status and the body stay as they are.
pub fn run_after(stages: &[Box<dyn Middleware>], request: &Request, response: &mut Response)
    ensures
        after_chain(stages@, request@, old(response)@, final(response)@),
        same_but_headers(old(response)@, final(response)@),
{
    let mut i: usize = 0;
    let ghost mut responses: Seq<ResponseView> = seq![response@];
    while i < stages.len()
        invariant
            i <= stages@.len(),
            responses.len() == i + 1,
            responses[0] == old(response)@,
            responses.last() == response@,
            same_but_headers(old(response)@, response@),
            forall|j: int|
                #![trigger stages@[j]]
                0 <= j < i ==> stages@[j].finishes(request@, responses[j], responses[j + 1]),
        decreases stages@.len() - i,
    {
        stages[i].after(request, response);
        proof {
            responses = responses.push(response@);
        }
        i = i + 1;
    }
    proof {
        assert(after_trace(stages@, request@, responses));
    }
}

} // verus!
