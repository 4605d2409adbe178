//! Requests and responses: their data, the canned responses, and the bytes
//! a response is sent as.

use crate::headers::{has_name, Fields, Headers};
use crate::text::{decimal_digits, decimal_string, str_eq, to_upper, uppercase};
use vstd::prelude::*;
use vstd::std_specs::convert::FromSpecImpl;
use vstd::utf8::encode_utf8;

verus! {

/// The request methods the server tells apart.
#[derive(Debug, Clone, Copy, PartialEq, Eq, Hash, Structural)]
pub enum Method {
    GET,
    POST,
    PUT,
    DELETE,
    HEAD,
    OPTIONS,
    PATCH,
}

impl Method {
    /// The method that an upper-case token names. A token that names none
    /// counts as `GET`.
    pub open spec fn named(upper: Seq<char>) -> Method {
        if upper == "POST"@ {
            Method::POST
        } else if upper == "PUT"@ {
            Method::PUT
        } else if upper == "DELETE"@ {
            Method::DELETE
        } else if upper == "HEAD"@ {
            Method::HEAD
        } else if upper == "OPTIONS"@ {
            Method::OPTIONS
        } else if upper == "PATCH"@ {
            Method::PATCH
        } else {
            Method::GET
        }
    }

    /// The method's name, in upper case.
    pub open spec fn name(self) -> Seq<char> {
        match self {
            Method::GET => "GET"@,
            Method::POST => "POST"@,
            Method::PUT => "PUT"@,
            Method::DELETE => "DELETE"@,
            Method::HEAD => "HEAD"@,
            Method::OPTIONS => "OPTIONS"@,
            Method::PATCH => "PATCH"@,
        }
    }

    /// The method that the token `upper`, already in upper case, names.
    pub fn from_upper(upper: &str) -> (m: Method)
        ensures
            m == Method::named(upper@),
    {
        if str_eq(upper, "POST") {
            Method::POST
        } else if str_eq(upper, "PUT") {
            Method::PUT
        } else if str_eq(upper, "DELETE") {
            Method::DELETE
        } else if str_eq(upper, "HEAD") {
            Method::HEAD
        } else if str_eq(upper, "OPTIONS") {
            Method::OPTIONS
        } else if str_eq(upper, "PATCH") {
            Method::PATCH
        } else {
            Method::GET
        }
    }

    /// The method's name, in upper case.
    pub fn as_str(&self) -> (s: &'static str)
        ensures
            s@ == self.name(),
    {
        match self {
            Method::GET => "GET",
            Method::POST => "POST",
            Method::PUT => "PUT",
            Method::DELETE => "DELETE",
            Method::HEAD => "HEAD",
            Method::OPTIONS => "OPTIONS",
            Method::PATCH => "PATCH",
        }
    }
}

impl<'a> From<&'a str> for Method {
    /// The method that `s` names, whatever its case.
    fn from(s: &'a str) -> (m: Method) {
        let upper = to_upper(s);
        Method::from_upper(upper.as_str())
    }
}

impl<'a> FromSpecImpl<&'a str> for Method {
    open spec fn obeys_from_spec() -> bool {
        true
    }

    open spec fn from_spec(s: &'a str) -> Method {
        Method::named(uppercase(s@))
    }
}

/// What went wrong with a read or a write, as far as the server cares.
#[derive(Debug, Clone, Copy, PartialEq, Eq, Hash, Structural)]
pub enum IoErrorKind {
    /// The operation would have blocked.
    WouldBlock,
    /// The operation ran into its deadline.
    TimedOut,
    /// Anything else.
    Other,
}

impl IoErrorKind {
    /// Whether trying again may help.
    pub open spec fn transient(self) -> bool {
        self == IoErrorKind::WouldBlock || self == IoErrorKind::TimedOut
    }

    /// Whether trying again may help.
    pub fn is_transient(&self) -> (r: bool)
        ensures
            r == self.transient(),
    {
        match self {
            IoErrorKind::WouldBlock => true,
            IoErrorKind::TimedOut => true,
            IoErrorKind::Other => false,
        }
    }
}

/// Why a request could not be read.
#[derive(Debug, Clone, Copy, PartialEq, Eq, Structural)]
pub enum ParseError {
    /// The request line, the header block or a chunk size is malformed.
    InvalidRequest,
    /// The declared body is larger than the server accepts.
    ContentTooLarge,
    /// Reading failed for good.
    IoError(IoErrorKind),
}

impl From<IoErrorKind> for ParseError {
    fn from(kind: IoErrorKind) -> (e: ParseError) {
        ParseError::IoError(kind)
    }
}

impl FromSpecImpl<IoErrorKind> for ParseError {
    open spec fn obeys_from_spec() -> bool {
        true
    }

    open spec fn from_spec(kind: IoErrorKind) -> ParseError {
        ParseError::IoError(kind)
    }
}

/// A request as the parser hands it on.
#[derive(Debug)]
pub struct Request {
    pub method: Method,
    pub path: String,
    pub headers: Headers,
    pub body: Vec<u8>,
}

/// What a [`Request`] holds.
pub struct RequestView {
    pub method: Method,
    pub path: Seq<char>,
    pub headers: Fields,
    pub body: Seq<u8>,
}

impl View for Request {
    type V = RequestView;

    open spec fn view(&self) -> RequestView {
        RequestView {
            method: self.method,
            path: self.path@,
            headers: self.headers@,
            body: self.body@,
        }
    }
}

/// A response, ready to be sent.
#[derive(Debug)]
pub struct Response {
    pub status_code: u16,
    pub status_text: String,
    pub headers: Headers,
    pub body: Vec<u8>,
}

/// What a [`Response`] holds.
pub struct ResponseView {
    pub status_code: u16,
    pub status_text: Seq<char>,
    pub headers: Fields,
    pub body: Seq<u8>,
}

impl View for Response {
    type V = ResponseView;

    open spec fn view(&self) -> ResponseView {
        ResponseView {
            status_code: self.status_code,
            status_text: self.status_text@,
            headers: self.headers@,
            body: self.body@,
        }
    }
}

/// The four header fields every new response carries.
pub open spec fn standard_headers(content_type: Seq<char>, body_len: nat) -> Fields {
    seq![
        ("Content-Type"@, content_type),
        ("Content-Length"@, decimal_digits(body_len)),
        ("Connection"@, "close"@),
        ("Server"@, "Rust-HTTP-Server/1.0"@),
    ]
}

/// The names of the standard fields, and `Allow`, differ in length.
pub proof fn lemma_standard_names()
    ensures
        "Content-Type"@.len() == 12,
        "Content-Length"@.len() == 14,
        "Connection"@.len() == 10,
        "Server"@.len() == 6,
        "Allow"@.len() == 5,
{
    reveal_strlit("Content-Type");
    reveal_strlit("Content-Length");
    reveal_strlit("Connection");
    reveal_strlit("Server");
    reveal_strlit("Allow");
}

/// A new response with the given status, content type and body.
pub open spec fn response_of(
    status_code: u16,
    status_text: Seq<char>,
    content_type: Seq<char>,
    body: Seq<u8>,
) -> ResponseView {
    ResponseView {
        status_code,
        status_text,
        headers: standard_headers(content_type, body.len()),
        body,
    }
}

/// The body of the 404 response.
pub open spec fn not_found_page() -> Seq<char> {
    "<!DOCTYPE html><html><head><title>404 Not Found</title></head><body><h1>404 Not Found</h1><p>The requested resource could not be found on this server.</p></body></html>"@
}

/// The body of the 500 response.
pub open spec fn internal_error_page() -> Seq<char> {
    "<!DOCTYPE html><html><head><title>500 Internal Server Error</title></head><body><h1>500 Internal Server Error</h1><p>The server encountered an internal error.</p></body></html>"@
}

/// The body of the 405 response.
pub open spec fn method_not_allowed_page() -> Seq<char> {
    "<!DOCTYPE html><html><head><title>405 Method Not Allowed</title></head><body><h1>405 Method Not Allowed</h1><p>The requested method is not allowed for this resource.</p></body></html>"@
}

/// The body of a 400 response that carries `message`.
pub open spec fn bad_request_page(message: Seq<char>) -> Seq<char> {
    "<!DOCTYPE html><html><head><title>400 Bad Request</title></head><body><h1>400 Bad Request</h1><p>"@
        + message + "</p></body></html>"@
}

/// The 200 response with the given content type and body.
pub open spec fn ok_view(content_type: Seq<char>, body: Seq<u8>) -> ResponseView {
    response_of(200, "OK"@, content_type, body)
}

/// The 404 response.
pub open spec fn not_found_view() -> ResponseView {
    response_of(404, "Not Found"@, "text/html"@, encode_utf8(not_found_page()))
}

/// The 500 response.
pub open spec fn internal_server_error_view() -> ResponseView {
    response_of(
        500,
        "Internal Server Error"@,
        "text/html"@,
        encode_utf8(internal_error_page()),
    )
}

/// The 400 response that carries `message`.
pub open spec fn bad_request_view(message: Seq<char>) -> ResponseView {
    response_of(400, "Bad Request"@, "text/html"@, encode_utf8(bad_request_page(message)))
}

/// The 405 response that allows the methods `allowed`.
pub open spec fn method_not_allowed_view(allowed: Seq<Seq<char>>) -> ResponseView {
    let plain = response_of(
        405,
        "Method Not Allowed"@,
        "text/html"@,
        encode_utf8(method_not_allowed_page()),
    );
    ResponseView { headers: plain.headers.push(("Allow"@, joined(allowed, ", "@))), ..plain }
}

/// `parts` in one string, with `separator` between each two.
pub open spec fn joined(parts: Seq<Seq<char>>, separator: Seq<char>) -> Seq<char>
    decreases parts.len(),
{
    if parts.len() == 0 {
        Seq::empty()
    } else if parts.len() == 1 {
        parts[0]
    } else {
        joined(parts.drop_last(), separator) + separator + parts.last()
    }
}

/// The views of a list of strings.
pub open spec fn views_of(parts: Seq<&str>) -> Seq<Seq<char>> {
    Seq::new(parts.len(), |i: int| parts[i]@)
}

/// Joins `parts` with `separator` between each two.
pub fn join(parts: &[&str], separator: &str) -> (s: String)
    ensures
        s@ == joined(views_of(parts@), separator@),
{
    let mut out = String::new();
    let mut i: usize = 0;
    let ghost all = views_of(parts@);
    assert(all.take(0) =~= Seq::<Seq<char>>::empty());
    while i < parts.len()
        invariant
            i <= parts@.len(),
            all == views_of(parts@),
            out@ == joined(all.take(i as int), separator@),
        decreases parts@.len() - i,
    {
        proof {
            assert(all.take(i + 1).drop_last() =~= all.take(i as int));
            assert(all.take(i + 1).last() == parts@[i as int]@);
            if i == 0 {
                assert(all.take(1)[0] == parts@[0]@);
                assert(Seq::<char>::empty() + parts@[0]@ =~= parts@[0]@);
            }
        }
        if i > 0 {
            out.append(separator);
        }
        out.append(parts[i]);
        i = i + 1;
    }
    assert(all.take(i as int) =~= all);
    out
}

/// The first line of a response.
pub open spec fn status_line(status_code: u16, status_text: Seq<char>) -> Seq<char> {
    "HTTP/1.1 "@ + decimal_digits(status_code as nat) + " "@ + status_text + "\r\n"@
}

/// One header field as a line of the response.
pub open spec fn header_line(name: Seq<char>, value: Seq<char>) -> Seq<char> {
    name + ": "@ + value + "\r\n"@
}

/// The header fields as bytes, one line each, in their order.
pub open spec fn header_block(fields: Fields) -> Seq<u8>
    decreases fields.len(),
{
    if fields.len() == 0 {
        Seq::empty()
    } else {
        header_block(fields.drop_last()) + encode_utf8(
            header_line(fields.last().0, fields.last().1),
        )
    }
}

/// The bytes a response is sent as: status line, header lines, an empty
/// line, body.
pub open spec fn wire_bytes(r: ResponseView) -> Seq<u8> {
    encode_utf8(status_line(r.status_code, r.status_text)) + header_block(r.headers) + encode_utf8(
        "\r\n"@,
    ) + r.body
}

/// Appends `bytes` to `out`.
pub fn append_bytes(out: &mut Vec<u8>, bytes: &[u8])
    ensures
        final(out)@ == old(out)@ + bytes@,
{
    let mut i: usize = 0;
    while i < bytes.len()
        invariant
            i <= bytes@.len(),
            out@ == old(out)@ + bytes@.take(i as int),
        decreases bytes@.len() - i,
    {
        out.push(bytes[i]);
        assert(bytes@.take(i + 1) =~= bytes@.take(i as int).push(bytes@[i as int]));
        i = i + 1;
    }
    assert(bytes@.take(i as int) =~= bytes@);
}

impl Response {
    /// A response with the given status, content type and body. It carries
    /// `Content-Type`, `Content-Length`, `Connection: close` and `Server`.
    pub fn new(status_code: u16, status_text: &str, content_type: &str, body: Vec<u8>) -> (r:
        Response)
        ensures
            r@ == response_of(status_code, status_text@, content_type@, body@),
    {
        let mut headers = Headers::new();
        let ghost f0 = headers@;
        headers.insert(String::from_str("Content-Type"), String::from_str(content_type));
        let ghost f1 = headers@;
        assert(f1 =~= seq![("Content-Type"@, content_type@)]);
        headers.insert(String::from_str("Content-Length"), decimal_string(body.len() as u128));
        let ghost f2 = headers@;
        proof {
            lemma_standard_names();
            assert(f1[0].0 == "Content-Type"@);
            assert(!has_name(f1, "Content-Length"@));
            assert(f2 =~= f1.push(("Content-Length"@, decimal_digits(body@.len()))));
        }
        headers.insert(String::from_str("Connection"), String::from_str("close"));
        let ghost f3 = headers@;
        proof {
            assert(f2[0].0 == "Content-Type"@ && f2[1].0 == "Content-Length"@);
            assert(!has_name(f2, "Connection"@));
            assert(f3 =~= f2.push(("Connection"@, "close"@)));
        }
        headers.insert(String::from_str("Server"), String::from_str("Rust-HTTP-Server/1.0"));
        proof {
            assert(f3[0].0 == "Content-Type"@ && f3[1].0 == "Content-Length"@ && f3[2].0
                == "Connection"@);
            assert(!has_name(f3, "Server"@));
            assert(headers@ =~= standard_headers(content_type@, body@.len()));
        }
        Response { status_code, status_text: String::from_str(status_text), headers, body }
    }

    /// A 200 response.
    pub fn ok(content_type: &str, body: Vec<u8>) -> (r: Response)
        ensures
            r@ == ok_view(content_type@, body@),
    {
        Response::new(200, "OK", content_type, body)
    }

    /// The 404 response.
    pub fn not_found() -> (r: Response)
        ensures
            r@ == not_found_view(),
    {
        Response::new(
            404,
            "Not Found",
            "text/html",
            "<!DOCTYPE html><html><head><title>404 Not Found</title></head><body><h1>404 Not Found</h1><p>The requested resource could not be found on this server.</p></body></html>".as_bytes_vec(),
        )
    }

    /// The 500 response.
    pub fn internal_server_error() -> (r: Response)
        ensures
            r@ == internal_server_error_view(),
    {
        Response::new(
            500,
            "Internal Server Error",
            "text/html",
            "<!DOCTYPE html><html><head><title>500 Internal Server Error</title></head><body><h1>500 Internal Server Error</h1><p>The server encountered an internal error.</p></body></html>".as_bytes_vec(),
        )
    }

    /// The 405 response. Its `Allow` header lists `allowed_methods`,
    /// separated by a comma and a space.
    pub fn method_not_allowed(allowed_methods: &[&str]) -> (r: Response)
        ensures
            r@ == method_not_allowed_view(views_of(allowed_methods@)),
    {
        let mut response = Response::new(
            405,
            "Method Not Allowed",
            "text/html",
            "<!DOCTYPE html><html><head><title>405 Method Not Allowed</title></head><body><h1>405 Method Not Allowed</h1><p>The requested method is not allowed for this resource.</p></body></html>".as_bytes_vec(),
        );
        proof {
            lemma_standard_names();
            let f = response.headers@;
            assert(f[0].0 == "Content-Type"@ && f[1].0 == "Content-Length"@ && f[2].0
                == "Connection"@ && f[3].0 == "Server"@);
            assert(!has_name(f, "Allow"@));
        }
        response.headers.insert(String::from_str("Allow"), join(allowed_methods, ", "));
        response
    }

    /// A 400 response whose body carries `message`.
    pub fn bad_request(message: &str) -> (r: Response)
        ensures
            r@ == bad_request_view(message@),
    {
        let mut page = String::from_str(
            "<!DOCTYPE html><html><head><title>400 Bad Request</title></head><body><h1>400 Bad Request</h1><p>",
        );
        page.append(message);
        page.append("</p></body></html>");
        Response::new(400, "Bad Request", "text/html", page.as_str().as_bytes_vec())
    }

    /// The response as the bytes that go on the wire.
    pub fn to_bytes(&self) -> (bytes: Vec<u8>)
        ensures
            bytes@ == wire_bytes(self@),
    {
        let mut out: Vec<u8> = Vec::new();
        let mut line = String::from_str("HTTP/1.1 ");
        line.append(decimal_string(self.status_code as u128).as_str());
        line.append(" ");
        line.append(self.status_text.as_str());
        line.append("\r\n");
        append_bytes(&mut out, line.as_str().as_bytes());
        let ghost head = out@;
        assert(head =~= encode_utf8(status_line(self.status_code, self.status_text@)));
        let n = self.headers.len();
        let mut i: usize = 0;
        assert(self.headers@.take(0) =~= Seq::<(Seq<char>, Seq<char>)>::empty());
        while i < n
            invariant
                i <= n,
                n == self.headers@.len(),
                out@ == head + header_block(self.headers@.take(i as int)),
            decreases n - i,
        {
            let mut field = String::from_str(self.headers.name_at(i).as_str());
            field.append(": ");
            field.append(self.headers.value_at(i).as_str());
            field.append("\r\n");
            append_bytes(&mut out, field.as_str().as_bytes());
            proof {
                let fields = self.headers@;
                assert(fields.take(i + 1).drop_last() =~= fields.take(i as int));
                assert(fields.take(i + 1).last() == fields[i as int]);
                assert(out@ =~= head + header_block(fields.take(i + 1)));
            }
            i = i + 1;
        }
        assert(self.headers@.take(i as int) =~= self.headers@);
        append_bytes(&mut out, "\r\n".as_bytes());
        append_bytes(&mut out, self.body.as_slice());
        out
    }
}

} // verus!
