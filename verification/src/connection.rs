//! What becomes of one connection once its request is read: an answer
//! without routing, or routing, the stages before dispatch, dispatch, and
//! the stages after it.

use crate::headers::has_name;
use crate::http::{
    append_bytes, bad_request_view, method_not_allowed_view, not_found_view, ok_view, IoErrorKind,
    Method, ParseError, Request, RequestView, Response, ResponseView,
};
use crate::middleware::{after_chain, before_chain, reply_view, run_after, run_before, Middleware};
use crate::router::{resolution, Handler, Resolution, RouteTable, RouteView};
use vstd::prelude::*;
use vstd::utf8::encode_utf8;

verus! {

/// A page that the library does not render itself.
#[derive(Debug, Clone, Copy, PartialEq, Eq, Structural)]
pub enum Page {
    /// The status page.
    Home,
    /// The statistics document.
    Stats,
}

/// What a parse result holds.
pub open spec fn parsed_view(parsed: Result<Request, ParseError>) -> Result<
    RequestView,
    ParseError,
> {
    match parsed {
        Ok(request) => Ok(request@),
        Err(e) => Err(e),
    }
}

/// Whether a request is answered with 400 for want of a content type: it is
/// a POST and has no `Content-Type` header.
pub open spec fn lacks_content_type(request: RequestView) -> bool {
    request.method == Method::POST && !has_name(request.headers, "Content-Type"@)
}

/// The answer that a parse result gets without routing: 400 for a body that
/// is too large, for a malformed request, and for a POST without content
/// type; none otherwise.
pub open spec fn early_reply(parsed: Result<RequestView, ParseError>) -> Option<ResponseView> {
    match parsed {
        Err(ParseError::ContentTooLarge) => Some(bad_request_view("Request body too large"@)),
        Err(ParseError::InvalidRequest) => Some(bad_request_view("Invalid request format"@)),
        Err(ParseError::IoError(_)) => None,
        Ok(request) => if lacks_content_type(request) {
            Some(bad_request_view("Missing Content-Type header"@))
        } else {
            None
        },
    }
}

/// A POST without a content type is answered with 400 whatever its path,
/// its body and its other headers are: no route is looked up for it.
pub proof fn lemma_post_needs_content_type(request: RequestView)
    requires
        request.method == Method::POST,
        !has_name(request.headers, "Content-Type"@),
    ensures
        early_reply(Ok(request)) == Some(bad_request_view("Missing Content-Type header"@)),
        early_reply(Ok(request))->0.status_code == 400,
{
}

/// What to do with a parse result.
#[derive(Debug)]
pub enum Reception {
    /// Reading failed: nothing is sent, the failure is handed on.
    Abort(IoErrorKind),
    /// Send this response; the request is not routed.
    Reply(Response),
    /// Route this request.
    Route(Request),
}

/// Decides what to do with a parse result, before any route is looked up.
pub fn receive(parsed: Result<Request, ParseError>) -> (r: Reception)
    ensures
        match parsed {
            Err(ParseError::IoError(kind)) => r matches Reception::Abort(k) && k == kind,
            _ => match early_reply(parsed_view(parsed)) {
                Some(reply) => r matches Reception::Reply(response) && response@ == reply,
                None => r matches Reception::Route(request) && parsed_view(parsed) == Ok::<
                    RequestView,
                    ParseError,
                >(request@),
            },
        },
{
    match parsed {
        Err(ParseError::IoError(kind)) => Reception::Abort(kind),
        Err(ParseError::ContentTooLarge) => Reception::Reply(
            Response::bad_request("Request body too large"),
        ),
        Err(ParseError::InvalidRequest) => Reception::Reply(
            Response::bad_request("Invalid request format"),
        ),
        Ok(request) => {
            if request.method == Method::POST && !request.headers.contains_key("Content-Type") {
                Reception::Reply(Response::bad_request("Missing Content-Type header"))
            } else {
                Reception::Route(request)
            }
        },
    }
}

/// The methods that a 405 response names as allowed.
pub open spec fn allowed_methods() -> Seq<Seq<char>> {
    seq!["GET"@, "POST"@]
}

/// The response that a resolution leads to without rendering: that of the
/// liveness marker and of the echo, 405 and 404. The two pages have none.
pub open spec fn direct_reply(resolution: Resolution, request: RequestView) -> Option<
    ResponseView,
> {
    match resolution {
        Resolution::Found(Handler::Health) => Some(
            ok_view("text/plain"@, encode_utf8("Server is healthy!"@)),
        ),
        Resolution::Found(Handler::Echo) => Some(ok_view("text/plain"@, request.body)),
        Resolution::Found(Handler::Home) => None,
        Resolution::Found(Handler::Stats) => None,
        Resolution::MethodNotAllowed => Some(method_not_allowed_view(allowed_methods())),
        Resolution::NotFound => Some(not_found_view()),
    }
}

/// The page that a resolution asks for.
pub open spec fn page_of(resolution: Resolution) -> Option<Page> {
    match resolution {
        Resolution::Found(Handler::Home) => Some(Page::Home),
        Resolution::Found(Handler::Stats) => Some(Page::Stats),
        _ => None,
    }
}

/// The response that carries a rendered page: the status page as HTML, the
/// statistics as JSON that is not to be cached.
pub open spec fn rendered_view(page: Page, body: Seq<u8>) -> ResponseView {
    match page {
        Page::Home => ok_view("text/html"@, body),
        Page::Stats => {
            let plain = ok_view("application/json"@, body);
            ResponseView { headers: plain.headers.push(("Cache-Control"@, "no-cache"@)), ..plain }
        },
    }
}

/// What dispatch gives.
#[derive(Debug)]
pub enum Dispatch {
    /// This response.
    Reply(Response),
    /// A page that is still to be rendered.
    Render(Page),
}

/// Invokes what a resolution leads to.
pub fn dispatch(resolution: Resolution, request: &Request) -> (d: Dispatch)
    ensures
        match direct_reply(resolution, request@) {
            Some(reply) => d matches Dispatch::Reply(response) && response@ == reply,
            None => d matches Dispatch::Render(page) && Some(page) == page_of(resolution),
        },
{
    match resolution {
        Resolution::Found(Handler::Health) => Dispatch::Reply(
            Response::ok("text/plain", "Server is healthy!".as_bytes_vec()),
        ),
        Resolution::Found(Handler::Echo) => {
            let mut body: Vec<u8> = Vec::new();
            append_bytes(&mut body, request.body.as_slice());
            assert(body@ =~= request.body@);
            Dispatch::Reply(Response::ok("text/plain", body))
        },
        Resolution::Found(Handler::Home) => Dispatch::Render(Page::Home),
        Resolution::Found(Handler::Stats) => Dispatch::Render(Page::Stats),
        Resolution::MethodNotAllowed => {
            let mut allowed: Vec<&str> = Vec::new();
            allowed.push("GET");
            allowed.push("POST");
            assert(crate::http::views_of(allowed@) =~= allowed_methods());
            Dispatch::Reply(Response::method_not_allowed(allowed.as_slice()))
        },
        Resolution::NotFound => Dispatch::Reply(Response::not_found()),
    }
}

/// The response that carries a rendered page.
pub fn rendered(page: Page, body: Vec<u8>) -> (r: Response)
    ensures
        r@ == rendered_view(page, body@),
{
    match page {
        Page::Home => Response::ok("text/html", body),
        Page::Stats => {
            let mut response = Response::ok("application/json", body);
            proof {
                crate::http::lemma_standard_names();
                reveal_strlit("Cache-Control");
                let f = response.headers@;
                assert(f[0].0 == "Content-Type"@ && f[1].0 == "Content-Length"@ && f[2].0
                    == "Connection"@ && f[3].0 == "Server"@);
                assert(!has_name(f, "Cache-Control"@));
            }
            response.headers.insert(String::from_str("Cache-Control"), String::from_str("no-cache"));
            response
        },
    }
}

/// What becomes of a connection.
#[derive(Debug)]
pub enum Outcome {
    /// Reading failed: nothing is sent, the failure is handed on.
    Abort(IoErrorKind),
    /// Send this response.
    Send(Response),
    /// Render this page for this request, then finish with [`finish_render`].
    Render(Page, Request),
}

/// Whether `out` may be what becomes of a routed request: the route is
/// looked up for the request as it was read; the stages see it before
/// dispatch; the reply of a stage takes the place of dispatch; and the
/// stages see every response that is to be sent.
pub open spec fn routed(
    routes: Seq<RouteView>,
    stages: Seq<Box<dyn Middleware>>,
    request: RequestView,
    out: Outcome,
) -> bool {
    exists|seen: RequestView, reply: Option<ResponseView>|
        {
            &&& #[trigger] before_chain(stages, request, seen, reply)
            &&& {
                let found = resolution(routes, request.method, request.path);
                let answer = if reply is Some {
                    reply
                } else {
                    direct_reply(found, seen)
                };
                match answer {
                    Some(first) => out matches Outcome::Send(response) && after_chain(
                        stages,
                        seen,
                        first,
                        response@,
                    ),
                    None => out matches Outcome::Render(page, held) && held@ == seen && Some(page)
                        == page_of(found),
                }
            }
        }
}

/// Decides what becomes of a connection whose request was read with the
/// result `parsed`.
///
/// A failed read is handed on. A body that is too large, a malformed
/// request, and a POST without content type are answered with 400, without
/// routing and without any stage. Every other request is routed.
pub fn plan(
    parsed: Result<Request, ParseError>,
    table: &RouteTable,
    stages: &[Box<dyn Middleware>],
) -> (out: Outcome)
    ensures
        match parsed {
            Err(ParseError::IoError(kind)) => out matches Outcome::Abort(k) && k == kind,
            _ => match early_reply(parsed_view(parsed)) {
                Some(reply) => out matches Outcome::Send(response) && response@ == reply,
                None => parsed is Ok && routed(table@, stages@, parsed->Ok_0@, out),
            },
        },
{
    match receive(parsed) {
        Reception::Abort(kind) => Outcome::Abort(kind),
        Reception::Reply(response) => Outcome::Send(response),
        Reception::Route(request) => {
            let mut request = request;
            let ghost read = request@;
            let found = table.resolve(request.method, request.path.as_str());
            let replaced = run_before(stages, &mut request);
            let ghost reply = reply_view(replaced);
            let out = match replaced {
                Some(response) => {
                    let mut response = response;
                    run_after(stages, &request, &mut response);
                    Outcome::Send(response)
                },
                None => match dispatch(found, &request) {
                    Dispatch::Reply(response) => {
                        let mut response = response;
                        run_after(stages, &request, &mut response);
                        Outcome::Send(response)
                    },
                    Dispatch::Render(page) => Outcome::Render(page, request),
                },
            };
            proof {
                assert(before_chain(stages@, read, request@, reply));
            }
            out
        },
    }
}

/// Makes the response of a rendered page, and lets the stages see it.
pub fn finish_render(
    page: Page,
    body: Vec<u8>,
    request: &Request,
    stages: &[Box<dyn Middleware>],
) -> (response: Response)
    ensures
        after_chain(stages@, request@, rendered_view(page, body@), response@),
{
    let mut response = rendered(page, body);
    run_after(stages, request, &mut response);
    response
}

} // verus!
