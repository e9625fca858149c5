//! Response formatting: turns a status line, headers and a body into
//! the exact wire text of a response.
//!
//! The blank-line separator between headers and body is a single
//! `\r\n` followed by one bare `\n`; existing clients of this service
//! depend on that exact framing, so it is kept as it is.

use vstd::prelude::*;
use vstd::utf8::encode_utf8;
use crate::text::dec_digits;
use crate::text::u64_to_string;

verus! {

/// The byte length of a body, as the builder reports it in
/// `Content-Length` (the UTF-8 encoding of the text, clipped to a
/// machine size, which every representable body satisfies).
pub open spec fn sp_body_byte_len(body: Seq<char>) -> nat {
    (encode_utf8(body).len() as usize) as nat
}

/// The full response text for a status reason phrase, a content type
/// and a body, with `Content-Length` and `Connection: close` headers.
pub open spec fn sp_http_response(status: Seq<char>, content_type: Seq<char>, body: Seq<char>) -> Seq<char> {
    "HTTP/1.1 "@ + status + "\r\n"@ + "Content-Type: "@ + content_type + "\r\nContent-Length: "@
        + dec_digits(sp_body_byte_len(body)) + "\r\nConnection: close"@ + "\r\n\n"@ + body
}

/// The response text of a created response: `201` with the new
/// resource id in an `Id` header and no `Content-Length`.
pub open spec fn sp_created_response(id: Seq<char>, body: Seq<char>) -> Seq<char> {
    "HTTP/1.1 201 Created"@ + "\r\n"@ + "Content-Type: text/plain\r\nId: "@ + id
        + "\r\nConnection: close"@ + "\r\n\n"@ + body
}

pub open spec fn sp_success_response(body: Seq<char>) -> Seq<char> {
    sp_http_response("200 OK"@, "application/json"@, body)
}

pub open spec fn sp_not_found_response(body: Option<Seq<char>>) -> Seq<char> {
    sp_http_response(
        "404 Not Found"@,
        "text/plain"@,
        match body {
            Some(b) => b,
            None => "The requested resource was not found."@,
        },
    )
}

pub open spec fn sp_bad_request_response(body: Seq<char>) -> Seq<char> {
    sp_http_response("400 Bad Request"@, "text/plain"@, body)
}

pub open spec fn sp_internal_server_error_response(body: Seq<char>) -> Seq<char> {
    sp_http_response("500 Internal Server Error"@, "text/plain"@, body)
}

/// Joins a status line, a header block and a body with the service's
/// framing: `\r\n` after the status line, `\r\n` plus a bare `\n`
/// between headers and body.
fn format_response(status_line: String, response_headers: String, response_body: String) -> (r:
    String)
    ensures
        r@ == status_line@ + "\r\n"@ + response_headers@ + "\r\n\n"@ + response_body@,
{
    let mut s = status_line;
    s.append("\r\n");
    s.append(response_headers.as_str());
    s.append("\r\n\n");
    s.append(response_body.as_str());
    s
}

/// The general response shape with `Content-Type`, `Content-Length`
/// and `Connection: close` headers.
fn create_http_response(status: &str, content_type: &str, body: &str) -> (r: String)
    ensures
        r@ == sp_http_response(status@, content_type@, body@),
{
    let mut status_line = String::from_str("HTTP/1.1 ");
    status_line.append(status);
    let mut headers = String::from_str("Content-Type: ");
    headers.append(content_type);
    headers.append("\r\nContent-Length: ");
    let len_text = u64_to_string(body.len() as u64);
    headers.append(len_text.as_str());
    headers.append("\r\nConnection: close");
    let r = format_response(status_line, headers, String::from_str(body));
    proof {
        assert(r@ =~= sp_http_response(status@, content_type@, body@));
    }
    r
}

/// Creates a success response (`200 OK`, JSON content type).
pub fn create_http_success_response(body: &str) -> (r: String)
    ensures
        r@ == sp_success_response(body@),
{
    create_http_response("200 OK", "application/json", body)
}

/// Creates a not-found response (`404`).
/// Use `None` for the default message, `Some(text)` for a custom one.
pub fn create_http_not_found_response(body: Option<&str>) -> (r: String)
    ensures
        r@ == sp_not_found_response(
            match body {
                Some(b) => Some(b@),
                None => None,
            },
        ),
{
    let text = match body {
        Some(b) => b,
        None => "The requested resource was not found.",
    };
    create_http_response("404 Not Found", "text/plain", text)
}

/// Creates a bad-request response (`400`).
pub fn create_http_bad_request_response(body: &str) -> (r: String)
    ensures
        r@ == sp_bad_request_response(body@),
{
    create_http_response("400 Bad Request", "text/plain", body)
}

/// Creates an internal-server-error response (`500`).
pub fn create_http_internal_server_error_response(body: &str) -> (r: String)
    ensures
        r@ == sp_internal_server_error_response(body@),
{
    create_http_response("500 Internal Server Error", "text/plain", body)
}

/// Creates a created response (`201`) carrying the new resource's id
/// in an `Id` header.
pub fn create_http_created_response(id: &str, body: &str) -> (r: String)
    ensures
        r@ == sp_created_response(id@, body@),
{
    let status_line = String::from_str("HTTP/1.1 201 Created");
    let mut headers = String::from_str("Content-Type: text/plain\r\nId: ");
    headers.append(id);
    headers.append("\r\nConnection: close");
    let r = format_response(status_line, headers, String::from_str(body));
    proof {
        assert(r@ =~= sp_created_response(id@, body@));
    }
    r
}

/// Creates an unauthorized response (`401`). Reserved, not routed.
pub fn _create_http_unauthorized_response(body: &str) -> (r: String)
    ensures
        r@ == sp_http_response("401 Unauthorized"@, "text/plain"@, body@),
{
    create_http_response("401 Unauthorized", "text/plain", body)
}

/// Creates a forbidden response (`403`). Reserved, not routed.
pub fn _create_http_forbidden_response(body: &str) -> (r: String)
    ensures
        r@ == sp_http_response("403 Forbidden"@, "text/plain"@, body@),
{
    create_http_response("403 Forbidden", "text/plain", body)
}

/// Creates a no-content response (`204`). Reserved, not routed.
pub fn _create_http_no_content_response() -> (r: String)
    ensures
        r@ == sp_http_response("204 No Content"@, "text/plain"@, ""@),
{
    create_http_response("204 No Content", "text/plain", "")
}

} // verus!
