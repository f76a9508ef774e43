//! Responses: their fields, their bytes on the wire, and the kinds this
//! server sends.
use vstd::prelude::*;
use vstd::utf8::encode_utf8;
use crate::bytes::{append, append_decimal, append_text, decimal, text};
use crate::content_type::{content_type_for, extension, mime_for};
use crate::request::Method;

verus! {

/// The status of a response.
#[derive(Debug, Clone, Copy, PartialEq, Eq, Structural)]
pub enum Status {
    Success,
    NotPermitted,
    NotFound,
    MethodNotAllowed,
}

/// The status code and reason phrase of a status.
pub open spec fn status_text(s: Status) -> Seq<u8> {
    match s {
        Status::Success => text("200 OK"),
        Status::NotPermitted => text("403 Not Permitted"),
        Status::NotFound => text("404 Not Found"),
        Status::MethodNotAllowed => text("405 Method Not Allowed"),
    }
}

impl Status {
    /// The status code and reason phrase.
    pub fn line(&self) -> (r: &'static str)
        ensures
            text(r) == status_text(*self),
    {
        match self {
            Status::Success => "200 OK",
            Status::NotPermitted => "403 Not Permitted",
            Status::NotFound => "404 Not Found",
            Status::MethodNotAllowed => "405 Method Not Allowed",
        }
    }
}

/// A complete response. `content_length` is the length of the body that a
/// GET gets, also where `body` is left empty (HEAD).
#[derive(Debug)]
pub struct Response {
    pub status: Status,
    pub date: Vec<u8>,
    pub content_type: &'static str,
    pub content_length: usize,
    pub body: Vec<u8>,
}

/// The fields of a response as values.
pub struct ResponseView {
    pub status: Status,
    pub date: Seq<u8>,
    pub content_type: Seq<char>,
    pub content_length: nat,
    pub body: Seq<u8>,
}

impl View for Response {
    type V = ResponseView;

    open spec fn view(&self) -> ResponseView {
        ResponseView {
            status: self.status,
            date: self.date@,
            content_type: self.content_type@,
            content_length: self.content_length as nat,
            body: self.body@,
        }
    }
}

/// The status line and headers of a response, up to the blank line.
pub open spec fn header_bytes(v: ResponseView) -> Seq<u8> {
    text("HTTP/1.1 ") + status_text(v.status) + text("\r\nDate: ") + v.date + text(
        "\r\nConnection: close\r\nServer: Rust Serv/0.2\r\nAllow: GET, HEAD\r\nContent-Type: ",
    ) + encode_utf8(v.content_type) + text("\r\nContent-Length: ") + decimal(v.content_length)
        + text("\r\n\r\n")
}

/// A response on the wire: its headers, then its body.
pub open spec fn wire_bytes(v: ResponseView) -> Seq<u8> {
    header_bytes(v) + v.body
}

/// A `200 OK` response of the given type that sends `body`, which a GET of a
/// resource of `length` bytes gets in full and a HEAD gets empty.
pub open spec fn ok_answer(
    method: Method,
    content_type: Seq<char>,
    length: nat,
    contents: Seq<u8>,
    date: Seq<u8>,
) -> ResponseView {
    ResponseView {
        status: Status::Success,
        date,
        content_type,
        content_length: length,
        body: if method == Method::Get {
            contents
        } else {
            Seq::empty()
        },
    }
}

/// The text of a `404` body for `uri`.
pub open spec fn not_found_body(uri: Seq<u8>) -> Seq<u8> {
    text("Resource '") + uri + text("' not found")
}

/// The `404` answer for `uri`: plain text naming it, sent in full to a GET;
/// a HEAD gets its length alone.
pub open spec fn not_found_answer(method: Method, uri: Seq<u8>, date: Seq<u8>) -> ResponseView {
    ResponseView {
        status: Status::NotFound,
        date,
        content_type: "text/plain"@,
        content_length: not_found_body(uri).len(),
        body: if method == Method::Get {
            not_found_body(uri)
        } else {
            Seq::empty()
        },
    }
}

/// A response without a body, of plain text.
pub open spec fn bare_answer(status: Status, date: Seq<u8>) -> ResponseView {
    ResponseView {
        status,
        date,
        content_type: "text/plain"@,
        content_length: 0,
        body: Seq::empty(),
    }
}

/// What a file handed to the response writer holds: its bytes (GET), or only
/// its length (HEAD).
#[derive(Debug)]
pub enum FileBody {
    Contents(Vec<u8>),
    Size(usize),
}

/// The length of the file that `b` stands for.
pub open spec fn body_length(b: FileBody) -> nat {
    match b {
        FileBody::Contents(v) => v@.len(),
        FileBody::Size(n) => n as nat,
    }
}

/// The bytes of the file that `b` holds (none for a length alone).
pub open spec fn body_contents(b: FileBody) -> Seq<u8> {
    match b {
        FileBody::Contents(v) => v@,
        FileBody::Size(_) => Seq::empty(),
    }
}

impl Response {
    /// The response's bytes on the wire.
    pub fn to_bytes(&self) -> (r: Vec<u8>)
        ensures
            r@ == wire_bytes(self@),
    {
        let mut out: Vec<u8> = Vec::new();
        append_text(&mut out, "HTTP/1.1 ");
        append_text(&mut out, self.status.line());
        append_text(&mut out, "\r\nDate: ");
        append(&mut out, self.date.as_slice());
        append_text(
            &mut out,
            "\r\nConnection: close\r\nServer: Rust Serv/0.2\r\nAllow: GET, HEAD\r\nContent-Type: ",
        );
        append_text(&mut out, self.content_type);
        append_text(&mut out, "\r\nContent-Length: ");
        append_decimal(&mut out, self.content_length);
        append_text(&mut out, "\r\n\r\n");
        append(&mut out, self.body.as_slice());
        assert(out@ =~= wire_bytes(self@));
        out
    }
}

/// The headers of a `200 OK` answer of the given type and length, without a body.
pub fn head(content_type: &'static str, body_length: usize, date: Vec<u8>) -> (r: Response)
    ensures
        r@ == ok_answer(Method::Head, content_type@, body_length as nat, Seq::empty(), date@),
{
    Response { status: Status::Success, date, content_type, content_length: body_length, body: Vec::new() }
}

/// The `405 Method Not Allowed` answer.
pub fn not_allowed(date: Vec<u8>) -> (r: Response)
    ensures
        r@ == bare_answer(Status::MethodNotAllowed, date@),
{
    Response {
        status: Status::MethodNotAllowed,
        date,
        content_type: "text/plain",
        content_length: 0,
        body: Vec::new(),
    }
}

/// The `403 Not Permitted` answer.
pub fn not_permitted(date: Vec<u8>) -> (r: Response)
    ensures
        r@ == bare_answer(Status::NotPermitted, date@),
{
    Response {
        status: Status::NotPermitted,
        date,
        content_type: "text/plain",
        content_length: 0,
        body: Vec::new(),
    }
}

/// The `404 Not Found` answer for `uri`, whose body names it; without the
/// body for a HEAD.
pub fn not_found(method: Method, uri: &[u8], date: Vec<u8>) -> (r: Response)
    ensures
        r@ == not_found_answer(method, uri@, date@),
{
    let mut body: Vec<u8> = Vec::new();
    append_text(&mut body, "Resource '");
    append(&mut body, uri);
    append_text(&mut body, "' not found");
    let length = body.len();
    let body = if method == Method::Get {
        body
    } else {
        Vec::new()
    };
    Response { status: Status::NotFound, date, content_type: "text/plain", content_length: length, body }
}

/// The answer for a file at `uri`: its type from the extension, its length,
/// and its bytes for a GET.
pub fn respond_file(method: Method, uri: &[u8], file: FileBody, date: Vec<u8>) -> (r: Response)
    requires
        method == Method::Get ==> file is Contents,
    ensures
        r@ == ok_answer(
            method,
            mime_for(extension(uri@)),
            body_length(file),
            body_contents(file),
            date@,
        ),
{
    let content_type = content_type_for(uri);
    match file {
        FileBody::Contents(data) => {
            let length = data.len();
            if method == Method::Get {
                Response { status: Status::Success, date, content_type, content_length: length, body: data }
            } else {
                head(content_type, length, date)
            }
        },
        FileBody::Size(length) => head(content_type, length, date),
    }
}

/// Answering a GET of the same unchanged file twice gives byte-identical
/// bodies and the same `Content-Length`, whatever the two dates.
pub proof fn lemma_get_is_repeatable(
    content_type: Seq<char>,
    contents: Seq<u8>,
    date1: Seq<u8>,
    date2: Seq<u8>,
)
    ensures
        ok_answer(Method::Get, content_type, contents.len(), contents, date1).body == ok_answer(
            Method::Get,
            content_type,
            contents.len(),
            contents,
            date2,
        ).body,
        ok_answer(Method::Get, content_type, contents.len(), contents, date1).body == contents,
        ok_answer(Method::Get, content_type, contents.len(), contents, date1).content_length
            == ok_answer(Method::Get, content_type, contents.len(), contents, date2).content_length,
{
}

/// HEAD and GET of the same resource, answered at the same date, have the same
/// status line and headers, `Content-Length` included; HEAD sends no body, and
/// what the HEAD was handed of the contents does not matter.
pub proof fn lemma_head_matches_get(
    content_type: Seq<char>,
    length: nat,
    get_contents: Seq<u8>,
    head_contents: Seq<u8>,
    date: Seq<u8>,
)
    ensures
        header_bytes(ok_answer(Method::Head, content_type, length, head_contents, date))
            == header_bytes(ok_answer(Method::Get, content_type, length, get_contents, date)),
        wire_bytes(ok_answer(Method::Head, content_type, length, head_contents, date))
            == header_bytes(ok_answer(Method::Get, content_type, length, get_contents, date)),
        wire_bytes(ok_answer(Method::Get, content_type, length, get_contents, date))
            == header_bytes(ok_answer(Method::Get, content_type, length, get_contents, date))
            + get_contents,
{
    let h = ok_answer(Method::Head, content_type, length, head_contents, date);
    assert(wire_bytes(h) =~= header_bytes(h));
}

/// A HEAD is never sent a body: not for a resource, nor for a 404.
pub proof fn lemma_head_sends_no_body(
    content_type: Seq<char>,
    length: nat,
    contents: Seq<u8>,
    uri: Seq<u8>,
    date: Seq<u8>,
)
    ensures
        ok_answer(Method::Head, content_type, length, contents, date).body.len() == 0,
        not_found_answer(Method::Head, uri, date).body.len() == 0,
        not_found_answer(Method::Head, uri, date).content_length == not_found_answer(
            Method::Get,
            uri,
            date,
        ).body.len(),
        wire_bytes(not_found_answer(Method::Head, uri, date)) == header_bytes(
            not_found_answer(Method::Get, uri, date),
        ),
{
    let h = not_found_answer(Method::Head, uri, date);
    assert(wire_bytes(h) =~= header_bytes(h));
}

} // verus!
