//! Response layout: which path is read once the filesystem has been
//! asked, and the exact bytes of every response. A response is a header
//! text followed by a raw body; the `Content-Length` of a success
//! response is the decimal byte count of that body.

use vstd::prelude::*;
use crate::decimal::{dec_of, decimal_string};
use crate::strutil::{join_path, join_under};

verus! {

/// The read decision as the specification sees it.
pub struct ReadChoice {
    pub path: Seq<char>,
    pub media: Seq<char>,
    pub fallback: bool,
}

/// Which path to read and which media type to report, given whether the
/// resolved path is an existing regular file: the path itself, or the
/// index document under the root as the single-page fallback.
pub open spec fn spec_read_plan(
    path: Seq<char>,
    media: Seq<char>,
    is_file: bool,
    root: Seq<char>,
) -> ReadChoice {
    if is_file {
        ReadChoice { path, media, fallback: false }
    } else {
        ReadChoice { path: join_path(root, "index.html"@), media: "text/html"@, fallback: true }
    }
}

/// The read decision: the file to open, the media type of the success
/// response, and whether this is the index fallback.
pub struct ReadPlan {
    pub path: String,
    pub content_type: &'static str,
    pub fallback: bool,
}

impl View for ReadPlan {
    type V = ReadChoice;

    open spec fn view(&self) -> ReadChoice {
        ReadChoice { path: self.path@, media: self.content_type@, fallback: self.fallback }
    }
}

/// Decides what to read for a resolved serve target, once the filesystem
/// has said whether the path is an existing regular file.
pub fn plan_read(path: String, content_type: &'static str, is_file: bool, root: &str) -> (r:
    ReadPlan)
    ensures
        r@ == spec_read_plan(path@, content_type@, is_file, root@),
{
    if is_file {
        ReadPlan { path, content_type, fallback: false }
    } else {
        ReadPlan { path: join_under(root, "index.html"), content_type: "text/html", fallback: true }
    }
}

/// One HTTP response: the header text, then the raw body bytes. The
/// wire image is the UTF-8 bytes of `head` followed by `body`.
pub struct HttpResponse {
    pub head: String,
    pub body: Vec<u8>,
}

/// Header text of a success response.
pub open spec fn ok_head(media: Seq<char>, n: nat) -> Seq<char> {
    "HTTP/1.1 200 OK\r\nContent-Type: "@ + media + "\r\nContent-Length: "@ + dec_of(n)
        + "\r\nConnection: close\r\n\r\n"@
}

/// Header text of a redirect response; it has no body.
pub open spec fn redirect_head(location: Seq<char>) -> Seq<char> {
    "HTTP/1.1 302 Found\r\nLocation: "@ + location + "\r\nConnection: close\r\n\r\n"@
}

/// The whole method-not-allowed response; its body text travels in the
/// header string.
pub open spec fn method_not_allowed_text() -> Seq<char> {
    "HTTP/1.1 405 Method Not Allowed\r\n\r\nMethod not allowed!"@
}

/// The whole read-failure response, one wording for a direct file and
/// one for the index fallback.
pub open spec fn read_error_text(fallback: bool) -> Seq<char> {
    if fallback {
        "HTTP/1.1 500 Internal Server Error\r\nContent-Type: text/plain\r\nConnection: close\r\n\r\nError reading index.html"@
    } else {
        "HTTP/1.1 500 Internal Server Error\r\nContent-Type: text/plain\r\nConnection: close\r\n\r\nError reading file"@
    }
}

/// Builds the 200 response for a body that was read successfully: the
/// `Content-Length` header carries exactly the body's byte count.
pub fn response_ok(content_type: &str, body: Vec<u8>) -> (r: HttpResponse)
    ensures
        r.head@ == ok_head(content_type@, body@.len()),
        r.body@ == body@,
{
    let count = decimal_string(body.len() as u64);
    let mut head = "HTTP/1.1 200 OK\r\nContent-Type: ".to_owned();
    head.append(content_type);
    head.append("\r\nContent-Length: ");
    head.append(count.as_str());
    head.append("\r\nConnection: close\r\n\r\n");
    HttpResponse { head, body }
}

/// Builds the 302 response; the `Location` header carries the decoded
/// address unchanged and the body is empty.
pub fn response_redirect(location: &str) -> (r: HttpResponse)
    ensures
        r.head@ == redirect_head(location@),
        r.body@ == Seq::<u8>::empty(),
{
    let mut head = "HTTP/1.1 302 Found\r\nLocation: ".to_owned();
    head.append(location);
    head.append("\r\nConnection: close\r\n\r\n");
    let body: Vec<u8> = Vec::new();
    HttpResponse { head, body }
}

/// Builds the 405 response for anything that is not an acceptable `GET`.
pub fn response_method_not_allowed() -> (r: HttpResponse)
    ensures
        r.head@ == method_not_allowed_text(),
        r.body@ == Seq::<u8>::empty(),
{
    let body: Vec<u8> = Vec::new();
    HttpResponse { head: "HTTP/1.1 405 Method Not Allowed\r\n\r\nMethod not allowed!".to_owned(), body }
}

/// Builds the 500 response for a file that existed but could not be
/// read.
pub fn response_read_error(fallback: bool) -> (r: HttpResponse)
    ensures
        r.head@ == read_error_text(fallback),
        r.body@ == Seq::<u8>::empty(),
{
    let body: Vec<u8> = Vec::new();
    if fallback {
        HttpResponse {
            head: "HTTP/1.1 500 Internal Server Error\r\nContent-Type: text/plain\r\nConnection: close\r\n\r\nError reading index.html".to_owned(),
            body,
        }
    } else {
        HttpResponse {
            head: "HTTP/1.1 500 Internal Server Error\r\nContent-Type: text/plain\r\nConnection: close\r\n\r\nError reading file".to_owned(),
            body,
        }
    }
}

} // verus!
