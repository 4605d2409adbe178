use http_server::connection::{dispatch, finish_render, plan, receive, rendered, Dispatch, Outcome, Page, Reception};
use http_server::headers::Headers;
use http_server::http::{IoErrorKind, Method, ParseError, Request, Response};
use http_server::middleware::{
    run_after, run_before, ErrorHandlingMiddleware, LoggingMiddleware, Middleware,
    SecurityHeadersMiddleware,
};
use http_server::router::{Handler, Resolution, RouteTable};
use http_server::server::Server;

fn server() -> Server {
    Server::started_at(4, 1_000)
        .unwrap()
        .with_middleware(Box::new(LoggingMiddleware))
        .with_middleware(Box::new(SecurityHeadersMiddleware))
        .with_middleware(Box::new(ErrorHandlingMiddleware))
}

fn sent(out: Outcome) -> Response {
    match out {
        Outcome::Send(response) => response,
        _ => panic!("a response was expected"),
    }
}

fn text(r: &Response) -> String {
    String::from_utf8(r.body.clone()).unwrap()
}

#[test]
fn an_unknown_path_is_not_found() {
    let r = sent(server().respond(Request::parse(b"GET /nope HTTP/1.1\r\n\r\n")));
    assert_eq!(r.status_code, 404);
    assert_eq!(r.status_text, "Not Found");
    assert!(text(&r).contains("<h1>404 Not Found</h1>"));
}

#[test]
fn a_known_path_under_another_method_is_not_allowed() {
    let r = sent(server().respond(Request::parse(b"DELETE /echo HTTP/1.1\r\n\r\n")));
    assert_eq!(r.status_code, 405);
    let allow = r.headers.get("Allow").unwrap();
    assert!(allow.contains("GET"));
    assert!(allow.contains("POST"));
    assert_eq!(allow, "GET, POST");
}

#[test]
fn echo_sends_the_body_back() {
    let r = sent(server().respond(Request::parse(
        b"POST /echo HTTP/1.1\r\nContent-Type: text/plain\r\nContent-Length: 5\r\n\r\nhello",
    )));
    assert_eq!(r.status_code, 200);
    assert_eq!(r.body, b"hello".to_vec());
    assert_eq!(r.headers.get("Content-Type").map(|s| s.as_str()), Some("text/plain"));
    assert_eq!(r.headers.get("Content-Length").map(|s| s.as_str()), Some("5"));
}

#[test]
fn health_says_that_the_server_is_healthy() {
    let r = sent(server().respond(Request::parse(b"GET /health HTTP/1.1\r\n\r\n")));
    assert_eq!(r.status_code, 200);
    assert_eq!(text(&r), "Server is healthy!");
    assert_eq!(r.headers.get("Content-Type").map(|s| s.as_str()), Some("text/plain"));
}

#[test]
fn a_post_without_content_type_is_a_bad_request_whatever_the_path() {
    for path in ["/echo", "/nope", "/", "/stats"] {
        let input = format!("POST {} HTTP/1.1\r\nContent-Length: 2\r\n\r\nhi", path);
        let r = sent(server().respond(Request::parse(input.as_bytes())));
        assert_eq!(r.status_code, 400);
        assert!(text(&r).contains("<p>Missing Content-Type header</p>"));
        // No stage has seen the response.
        assert!(!r.headers.contains_key("X-Frame-Options"));
    }
}

#[test]
fn parse_failures_are_answered_with_400_or_handed_on() {
    let r = sent(server().respond(Err(ParseError::ContentTooLarge)));
    assert_eq!(r.status_code, 400);
    assert!(text(&r).contains("<p>Request body too large</p>"));
    let r = sent(server().respond(Err(ParseError::InvalidRequest)));
    assert_eq!(r.status_code, 400);
    assert!(text(&r).contains("<p>Invalid request format</p>"));
    assert!(matches!(
        server().respond(Err(ParseError::IoError(IoErrorKind::TimedOut))),
        Outcome::Abort(IoErrorKind::TimedOut)
    ));
    assert!(matches!(receive(Err(ParseError::IoError(IoErrorKind::Other))), Reception::Abort(IoErrorKind::Other)));
    assert!(matches!(receive(Err(ParseError::InvalidRequest)), Reception::Reply(_)));
    assert!(matches!(receive(Request::parse(b"GET / HTTP/1.1\r\n\r\n")), Reception::Route(_)));
}

#[test]
fn the_pages_are_rendered_by_the_caller() {
    let s = server();
    match s.respond(Request::parse(b"GET /stats HTTP/1.1\r\n\r\n")) {
        Outcome::Render(page, request) => {
            assert_eq!(page, Page::Stats);
            assert_eq!(request.path, "/stats");
            assert!(request.headers.contains_key("x-start-time"));
            let r = s.finish(page, b"{}".to_vec(), &request);
            assert_eq!(r.status_code, 200);
            assert_eq!(r.body, b"{}".to_vec());
            assert_eq!(r.headers.get("Content-Type").map(|s| s.as_str()), Some("application/json"));
            assert_eq!(r.headers.get("Cache-Control").map(|s| s.as_str()), Some("no-cache"));
            assert_eq!(r.headers.get("X-Frame-Options").map(|s| s.as_str()), Some("DENY"));
        }
        _ => panic!("the statistics are rendered"),
    }
    match s.respond(Request::parse(b"GET / HTTP/1.1\r\n\r\n")) {
        Outcome::Render(page, request) => {
            assert_eq!(page, Page::Home);
            let r = finish_render(page, b"<html>".to_vec(), &request, &[]);
            assert_eq!(r.headers.get("Content-Type").map(|s| s.as_str()), Some("text/html"));
            assert!(!r.headers.contains_key("Cache-Control"));
            assert_eq!(r.headers.len(), 4);
        }
        _ => panic!("the status page is rendered"),
    }
    let r = rendered(Page::Stats, b"x".to_vec());
    assert_eq!(r.headers.len(), 5);
    assert_eq!(r.headers.name_at(4), "Cache-Control");
}

#[test]
fn routed_responses_pass_the_stages() {
    let r = sent(server().respond(Request::parse(b"GET /nope HTTP/1.1\r\n\r\n")));
    assert_eq!(r.headers.get("X-Content-Type-Options").map(|s| s.as_str()), Some("nosniff"));
    assert_eq!(r.headers.get("X-Frame-Options").map(|s| s.as_str()), Some("DENY"));
    assert_eq!(r.headers.get("X-XSS-Protection").map(|s| s.as_str()), Some("1; mode=block"));
    assert_eq!(r.status_code, 404);
}

struct Teapot;

impl Middleware for Teapot {
    fn process(&self, request: &mut Request) -> Option<Response> {
        request.body = b"changed".to_vec();
        if request.path == "/tea" {
            Some(Response::new(418, "I'm a teapot", "text/plain", b"short and stout".to_vec()))
        } else {
            None
        }
    }

    fn after(&self, _request: &Request, response: &mut Response) {
        response.headers.insert("X-Pot".to_string(), "tea".to_string());
    }
}

struct Coffee;

impl Middleware for Coffee {
    fn process(&self, _request: &mut Request) -> Option<Response> {
        Some(Response::new(503, "Service Unavailable", "text/plain", b"no coffee".to_vec()))
    }

    fn after(&self, _request: &Request, response: &mut Response) {
        response.headers.insert("X-Pot".to_string(), "coffee".to_string());
    }
}

#[test]
fn the_reply_of_a_stage_takes_the_place_of_dispatch() {
    let table = RouteTable::with_default_routes();
    let stages: Vec<Box<dyn Middleware>> = vec![Box::new(Teapot)];
    let r = sent(plan(Request::parse(b"GET /tea HTTP/1.1\r\n\r\n"), &table, &stages));
    assert_eq!(r.status_code, 418);
    assert_eq!(r.headers.get("X-Pot").map(|s| s.as_str()), Some("tea"));
    // The route is looked up for the request as it was read; the handler
    // sees the request as the stages left it.
    let r = sent(plan(
        Request::parse(b"POST /echo HTTP/1.1\r\nContent-Type: a\r\nContent-Length: 2\r\n\r\nhi"),
        &table,
        &stages,
    ));
    assert_eq!(r.status_code, 200);
    assert_eq!(r.body, b"changed".to_vec());
}

#[test]
fn the_last_stage_that_replies_wins() {
    let table = RouteTable::with_default_routes();
    let stages: Vec<Box<dyn Middleware>> = vec![Box::new(Teapot), Box::new(Coffee)];
    let r = sent(plan(Request::parse(b"GET /tea HTTP/1.1\r\n\r\n"), &table, &stages));
    assert_eq!(r.status_code, 503);
    assert_eq!(r.headers.get("X-Pot").map(|s| s.as_str()), Some("coffee"));
    let stages: Vec<Box<dyn Middleware>> = vec![Box::new(Coffee), Box::new(Teapot)];
    let r = sent(plan(Request::parse(b"GET /tea HTTP/1.1\r\n\r\n"), &table, &stages));
    assert_eq!(r.status_code, 418);
    assert_eq!(r.headers.get("X-Pot").map(|s| s.as_str()), Some("tea"));
    let r = sent(plan(Request::parse(b"GET /health HTTP/1.1\r\n\r\n"), &table, &stages));
    assert_eq!(r.status_code, 503);
}

#[test]
fn stages_run_in_the_order_of_registration() {
    let stages: Vec<Box<dyn Middleware>> = vec![Box::new(Coffee), Box::new(Teapot)];
    let mut request = Request { method: Method::GET, path: "/x".to_string(), headers: Headers::new(), body: Vec::new() };
    let reply = run_before(&stages, &mut request).unwrap();
    assert_eq!(reply.status_code, 503);
    assert_eq!(request.body, b"changed".to_vec());
    let mut response = Response::ok("text/plain", Vec::new());
    run_after(&stages, &request, &mut response);
    assert_eq!(response.headers.get("X-Pot").map(|s| s.as_str()), Some("tea"));
    let none: Vec<Box<dyn Middleware>> = Vec::new();
    assert!(run_before(&none, &mut request).is_none());
}

#[test]
fn the_built_in_stages_do_what_they_say() {
    let mut request = Request { method: Method::GET, path: "/".to_string(), headers: Headers::new(), body: Vec::new() };
    assert!(LoggingMiddleware.process(&mut request).is_none());
    let stamp = request.headers.get("x-start-time").unwrap();
    assert!(!stamp.is_empty() && stamp.chars().all(|c| c.is_ascii_digit()));
    LoggingMiddleware::stamp(&mut request, 1234);
    assert_eq!(request.headers.get("x-start-time").map(|s| s.as_str()), Some("1234"));
    assert_eq!(request.headers.len(), 1);

    let mut response = Response::not_found();
    LoggingMiddleware.after(&request, &mut response);
    ErrorHandlingMiddleware.after(&request, &mut response);
    assert_eq!(response.headers.len(), 4);
    assert!(ErrorHandlingMiddleware::is_error(&response));
    assert!(!ErrorHandlingMiddleware::is_error(&Response::ok("a", Vec::new())));
    assert!(ErrorHandlingMiddleware.process(&mut request).is_none());
    assert!(SecurityHeadersMiddleware.process(&mut request).is_none());
    SecurityHeadersMiddleware.after(&request, &mut response);
    assert_eq!(response.headers.len(), 7);
    assert_eq!(response.headers.name_at(4), "X-Content-Type-Options");
    assert_eq!(response.headers.name_at(5), "X-Frame-Options");
    assert_eq!(response.headers.name_at(6), "X-XSS-Protection");
}

#[test]
fn the_table_resolves_exact_matches_only() {
    let t = RouteTable::with_default_routes();
    assert_eq!(t.len(), 4);
    assert_eq!(t.resolve(Method::GET, "/"), Resolution::Found(Handler::Home));
    assert_eq!(t.resolve(Method::GET, "/health"), Resolution::Found(Handler::Health));
    assert_eq!(t.resolve(Method::GET, "/stats"), Resolution::Found(Handler::Stats));
    assert_eq!(t.resolve(Method::POST, "/echo"), Resolution::Found(Handler::Echo));
    assert_eq!(t.resolve(Method::GET, "/echo"), Resolution::MethodNotAllowed);
    assert_eq!(t.resolve(Method::POST, "/"), Resolution::MethodNotAllowed);
    assert_eq!(t.resolve(Method::GET, "/health/"), Resolution::NotFound);
    assert_eq!(t.resolve(Method::GET, "/Health"), Resolution::NotFound);
    assert_eq!(t.resolve(Method::GET, "/health?x=1"), Resolution::NotFound);
    assert_eq!(t.resolve(Method::GET, ""), Resolution::NotFound);
    assert_eq!(
        t.describe(),
        vec!["GET /".to_string(), "GET /health".to_string(), "GET /stats".to_string(), "POST /echo".to_string()]
    );
    assert_eq!(t.route_at(3).path, "/echo");
}

#[test]
fn registering_again_replaces_the_handler() {
    let mut t = RouteTable::new();
    assert_eq!(t.resolve(Method::GET, "/"), Resolution::NotFound);
    t.register(Method::GET, "/a".to_string(), Handler::Health);
    t.register(Method::PUT, "/a".to_string(), Handler::Echo);
    t.register(Method::GET, "/a".to_string(), Handler::Home);
    assert_eq!(t.len(), 2);
    assert_eq!(t.resolve(Method::GET, "/a"), Resolution::Found(Handler::Home));
    assert_eq!(t.resolve(Method::PUT, "/a"), Resolution::Found(Handler::Echo));
    assert_eq!(t.resolve(Method::POST, "/a"), Resolution::MethodNotAllowed);
    assert_eq!(t.describe(), vec!["GET /a".to_string(), "PUT /a".to_string()]);
}

#[test]
fn dispatch_follows_the_resolution() {
    let request = Request { method: Method::POST, path: "/echo".to_string(), headers: Headers::new(), body: b"xyz".to_vec() };
    match dispatch(Resolution::Found(Handler::Echo), &request) {
        Dispatch::Reply(r) => assert_eq!(r.body, b"xyz".to_vec()),
        _ => panic!("echo replies"),
    }
    assert!(matches!(dispatch(Resolution::Found(Handler::Home), &request), Dispatch::Render(Page::Home)));
    assert!(matches!(dispatch(Resolution::Found(Handler::Stats), &request), Dispatch::Render(Page::Stats)));
    match dispatch(Resolution::NotFound, &request) {
        Dispatch::Reply(r) => assert_eq!(r.status_code, 404),
        _ => panic!("404 replies"),
    }
}
