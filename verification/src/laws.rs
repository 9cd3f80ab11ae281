//! The server's general laws, stated over the same specification
//! functions that the executable contracts use, and proved once and for
//! all inputs.

use vstd::prelude::*;
use crate::decimal::{dec_of, lemma_dec_of_val, val_of};
use crate::media::{extension_of, file_name_of, media_for, media_type_of};
use crate::request::is_get_request;
use crate::request::target_of;
use crate::resolve::{
    candidate_path, is_image_route, is_redirect, path_portion, rewrite_root_path, serve_path,
    spec_resolution, ResolvedTarget,
};
use crate::response::{
    method_not_allowed_text, ok_head, read_error_text, redirect_head, spec_read_plan,
};
use crate::strutil::{
    has_prefix, join_path, lemma_find_char_none, lemma_rfind_char_concat, lemma_rfind_char_is,
    lemma_rfind_char_none, rfind_char, strip_slashes,
};

verus! {

/// What the filesystem reported while one request was handled: whether
/// the resolved path named an existing regular file, and the contents
/// that reading the chosen file yielded (nothing on a read failure).
pub struct FsReport {
    pub is_file: bool,
    pub read_outcome: Option<Seq<u8>>,
}

/// The full response to one raw request, as header text and body bytes,
/// as a function of the request, the configured root, and what the
/// filesystem reported. This composes resolution, the read plan, and
/// the response layout exactly as a connection handler does.
pub open spec fn response_parts(req: Seq<char>, root: Seq<char>, fs: FsReport) -> (Seq<
    char,
>, Seq<u8>) {
    match spec_resolution(req, root) {
        ResolvedTarget::MethodNotAllowed => (method_not_allowed_text(), Seq::<u8>::empty()),
        ResolvedTarget::Redirect(location) => (redirect_head(location), Seq::<u8>::empty()),
        ResolvedTarget::Serve { path, media } => {
            let plan = spec_read_plan(path, media, fs.is_file, root);
            match fs.read_outcome {
                Some(bytes) => (ok_head(plan.media, bytes.len()), bytes),
                None => (read_error_text(plan.fallback), Seq::<u8>::empty()),
            }
        },
    }
}

/// The index document under the root carries the `html` extension, so
/// it is always served as `text/html`, whatever the root looks like.
pub proof fn lemma_index_media(root: Seq<char>)
    ensures
        media_type_of(extension_of(join_path(root, "index.html"@))) == "text/html"@,
{
    reveal_strlit("index.html");
    reveal_strlit("html");
    reveal_strlit("text/html");
    let idx = "index.html"@;
    let p = join_path(root, idx);
    assert(idx.len() == 10);
    assert(forall|k: int| 0 <= k < 10 ==> idx[k] != '/');
    if root.len() == 0 {
        assert(p == idx);
        lemma_rfind_char_none(idx, '/');
        assert(file_name_of(p) == idx);
    } else if root.last() == '/' {
        assert(p == root + idx);
        lemma_rfind_char_concat(root, idx, '/');
        assert(rfind_char(root, '/') == root.len() - 1);
        assert(p.skip(root.len() as int) =~= idx);
        assert(file_name_of(p) == idx);
    } else {
        let a = root + seq!['/'];
        assert(p == root + seq!['/'] + idx);
        assert(a + idx =~= p);
        lemma_rfind_char_concat(a, idx, '/');
        assert(a.last() == '/');
        assert(rfind_char(a, '/') == a.len() - 1);
        assert(rfind_char(p, '/') == root.len());
        assert(p.skip(root.len() + 1 as int) =~= idx);
        assert(file_name_of(p) == idx);
    }
    assert(idx[5] == '.');
    assert(forall|k: int| 5 < k < 10 ==> idx[k] != '.');
    lemma_rfind_char_is(idx, '.', 5);
    assert(extension_of(p) == Some(idx.skip(6)));
    assert(idx.skip(6) =~= "html"@);
    assert(media_for("html"@) == "text/html"@);
}

/// A `GET` whose target is exactly `/` resolves to serving the index
/// document under the root, as HTML.
pub proof fn lemma_root_request_serves_index(req: Seq<char>, root: Seq<char>)
    requires
        is_get_request(req),
        target_of(req) == "/"@,
    ensures
        spec_resolution(req, root) == (ResolvedTarget::Serve {
            path: join_path(root, "index.html"@),
            media: "text/html"@,
        }),
{
    reveal_strlit("/");
    reveal_strlit("/_next/image");
    reveal_strlit("/index.html");
    reveal_strlit("index.html");
    let target = target_of(req);
    assert(target.len() == 1);
    assert(!has_prefix(target, "/_next/image"@));
    assert(!is_image_route(target));
    assert(target[0] == '/');
    lemma_find_char_none(target, '?');
    assert(path_portion(target) == target);
    assert(candidate_path(target) == target);
    assert(!is_redirect(target));
    assert(rewrite_root_path(target) == "/index.html"@);
    let pi = "/index.html"@;
    assert(pi[0] == '/');
    assert(pi.skip(1) =~= "index.html"@);
    assert("index.html"@[0] == 'i');
    assert(strip_slashes("index.html"@) == "index.html"@);
    assert(strip_slashes(pi) == "index.html"@);
    assert(serve_path(root, target) == join_path(root, "index.html"@));
    lemma_index_media(root);
}

/// A resolved path that is not an existing regular file is answered
/// with the single-page fallback: the index document under the root,
/// status 200, never 404 — the body is exactly what the index file
/// held.
pub proof fn lemma_missing_file_serves_index(
    req: Seq<char>,
    root: Seq<char>,
    fs: FsReport,
    bytes: Seq<u8>,
)
    requires
        spec_resolution(req, root) is Serve,
        !fs.is_file,
        fs.read_outcome == Some(bytes),
    ensures
        response_parts(req, root, fs) == (ok_head("text/html"@, bytes.len()), bytes),
        spec_read_plan(
            spec_resolution(req, root)->Serve_path,
            spec_resolution(req, root)->Serve_media,
            fs.is_file,
            root,
        ).path == join_path(root, "index.html"@),
{
}

/// Anything that is not an acceptable `GET` request is answered with
/// the method-not-allowed response, whatever the filesystem holds.
pub proof fn lemma_non_get_rejected(req: Seq<char>, root: Seq<char>, fs: FsReport)
    requires
        !is_get_request(req),
    ensures
        response_parts(req, root, fs) == (method_not_allowed_text(), Seq::<u8>::empty()),
{
}

/// The `Content-Length` digits of a success response denote exactly the
/// byte count of the body that follows the header.
pub proof fn lemma_content_length_counts_body(media: Seq<char>, n: nat)
    ensures
        ok_head(media, n) == "HTTP/1.1 200 OK\r\nContent-Type: "@ + media
            + "\r\nContent-Length: "@ + dec_of(n) + "\r\nConnection: close\r\n\r\n"@,
        val_of(dec_of(n)) == n,
        dec_of(n).len() >= 1,
{
    lemma_dec_of_val(n);
}

/// Handling is deterministic: identical requests against an identical
/// root and an unchanged filesystem produce byte-identical responses.
pub proof fn lemma_identical_requests_identical_responses(
    req1: Seq<char>,
    root1: Seq<char>,
    fs1: FsReport,
    req2: Seq<char>,
    root2: Seq<char>,
    fs2: FsReport,
)
    requires
        req1 == req2,
        root1 == root2,
        fs1 == fs2,
    ensures
        response_parts(req1, root1, fs1) == response_parts(req2, root2, fs2),
{
}

/// An extension outside the table is served as the generic byte-stream
/// type.
pub proof fn lemma_unknown_extension_octet_stream(e: Seq<char>)
    requires
        e != "html"@,
        e != "htm"@,
        e != "css"@,
        e != "js"@,
        e != "mjs"@,
        e != "json"@,
        e != "xml"@,
        e != "pdf"@,
        e != "zip"@,
        e != "doc"@,
        e != "docx"@,
        e != "xls"@,
        e != "xlsx"@,
        e != "ico"@,
        e != "png"@,
        e != "jpg"@,
        e != "jpeg"@,
        e != "gif"@,
        e != "svg"@,
        e != "webp"@,
        e != "mp3"@,
        e != "wav"@,
        e != "mp4"@,
        e != "webm"@,
        e != "txt"@,
        e != "csv"@,
        e != "md"@,
        e != "woff"@,
        e != "woff2"@,
        e != "ttf"@,
        e != "otf"@,
        e != "eot"@,
    ensures
        media_for(e) == "application/octet-stream"@,
{
}

} // verus!
