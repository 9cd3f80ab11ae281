//! The extension-to-media-type table. The extension of a path is the part
//! of its final component after the last dot, provided that dot is not the
//! component's first character; everything unknown maps to
//! `application/octet-stream`.

use vstd::prelude::*;
use crate::strutil::{lemma_rfind_char, rfind_char, rscan_char, str_eq};

verus! {

/// The final path component: everything after the last `'/'`.
pub open spec fn file_name_of(p: Seq<char>) -> Seq<char> {
    let k = rfind_char(p, '/');
    if k < 0 {
        p
    } else {
        p.skip(k + 1)
    }
}

/// The extension of `p`, when its final component has a dot past its
/// first character.
pub open spec fn extension_of(p: Seq<char>) -> Option<Seq<char>> {
    let name = file_name_of(p);
    let d = rfind_char(name, '.');
    if d <= 0 {
        None
    } else {
        Some(name.skip(d + 1))
    }
}

/// The media type mapped to a known extension; anything else is the
/// generic byte-stream type.
pub open spec fn media_for(e: Seq<char>) -> Seq<char> {
    if e == "html"@ || e == "htm"@ {
        "text/html"@
    } else if e == "css"@ {
        "text/css"@
    } else if e == "js"@ {
        "application/javascript"@
    } else if e == "mjs"@ {
        "application/javascript"@
    } else if e == "json"@ {
        "application/json"@
    } else if e == "xml"@ {
        "application/xml"@
    } else if e == "pdf"@ {
        "application/pdf"@
    } else if e == "zip"@ {
        "application/zip"@
    } else if e == "doc"@ {
        "application/msword"@
    } else if e == "docx"@ {
        "application/vnd.openxmlformats-officedocument.wordprocessingml.document"@
    } else if e == "xls"@ {
        "application/vnd.ms-excel"@
    } else if e == "xlsx"@ {
        "application/vnd.openxmlformats-officedocument.spreadsheetml.sheet"@
    } else if e == "ico"@ {
        "image/x-icon"@
    } else if e == "png"@ {
        "image/png"@
    } else if e == "jpg"@ || e == "jpeg"@ {
        "image/jpeg"@
    } else if e == "gif"@ {
        "image/gif"@
    } else if e == "svg"@ {
        "image/svg+xml"@
    } else if e == "webp"@ {
        "image/webp"@
    } else if e == "mp3"@ {
        "audio/mpeg"@
    } else if e == "wav"@ {
        "audio/wav"@
    } else if e == "mp4"@ {
        "video/mp4"@
    } else if e == "webm"@ {
        "video/webm"@
    } else if e == "txt"@ {
        "text/plain"@
    } else if e == "csv"@ {
        "text/csv"@
    } else if e == "md"@ {
        "text/markdown"@
    } else if e == "woff"@ {
        "font/woff"@
    } else if e == "woff2"@ {
        "font/woff2"@
    } else if e == "ttf"@ {
        "font/ttf"@
    } else if e == "otf"@ {
        "font/otf"@
    } else if e == "eot"@ {
        "application/vnd.ms-fontobject"@
    } else {
        "application/octet-stream"@
    }
}

/// The media type for a path's extension, absent extensions included.
pub open spec fn media_type_of(ext: Option<Seq<char>>) -> Seq<char> {
    match ext {
        Some(e) => media_for(e),
        None => "application/octet-stream"@,
    }
}

fn media_lookup(e: &str) -> (r: &'static str)
    ensures
        r@ == media_for(e@),
{
    if str_eq(e, "html") || str_eq(e, "htm") {
        "text/html"
    } else if str_eq(e, "css") {
        "text/css"
    } else if str_eq(e, "js") {
        "application/javascript"
    } else if str_eq(e, "mjs") {
        "application/javascript"
    } else if str_eq(e, "json") {
        "application/json"
    } else if str_eq(e, "xml") {
        "application/xml"
    } else if str_eq(e, "pdf") {
        "application/pdf"
    } else if str_eq(e, "zip") {
        "application/zip"
    } else if str_eq(e, "doc") {
        "application/msword"
    } else if str_eq(e, "docx") {
        "application/vnd.openxmlformats-officedocument.wordprocessingml.document"
    } else if str_eq(e, "xls") {
        "application/vnd.ms-excel"
    } else if str_eq(e, "xlsx") {
        "application/vnd.openxmlformats-officedocument.spreadsheetml.sheet"
    } else if str_eq(e, "ico") {
        "image/x-icon"
    } else if str_eq(e, "png") {
        "image/png"
    } else if str_eq(e, "jpg") || str_eq(e, "jpeg") {
        "image/jpeg"
    } else if str_eq(e, "gif") {
        "image/gif"
    } else if str_eq(e, "svg") {
        "image/svg+xml"
    } else if str_eq(e, "webp") {
        "image/webp"
    } else if str_eq(e, "mp3") {
        "audio/mpeg"
    } else if str_eq(e, "wav") {
        "audio/wav"
    } else if str_eq(e, "mp4") {
        "video/mp4"
    } else if str_eq(e, "webm") {
        "video/webm"
    } else if str_eq(e, "txt") {
        "text/plain"
    } else if str_eq(e, "csv") {
        "text/csv"
    } else if str_eq(e, "md") {
        "text/markdown"
    } else if str_eq(e, "woff") {
        "font/woff"
    } else if str_eq(e, "woff2") {
        "font/woff2"
    } else if str_eq(e, "ttf") {
        "font/ttf"
    } else if str_eq(e, "otf") {
        "font/otf"
    } else if str_eq(e, "eot") {
        "application/vnd.ms-fontobject"
    } else {
        "application/octet-stream"
    }
}

/// The `Content-Type` value served for `path`, chosen by its extension.
pub fn get_content_type(path: &str) -> (r: &'static str)
    ensures
        r@ == media_type_of(extension_of(path@)),
{
    let n = path.unicode_len();
    let name = match rscan_char(path, '/') {
        Some(k) => {
            proof {
                lemma_rfind_char(path@, '/');
            }
            path.substring_char(k + 1, n)
        },
        None => path,
    };
    proof {
        assert(name@ =~= file_name_of(path@));
    }
    let m = name.unicode_len();
    match rscan_char(name, '.') {
        Some(d) => {
            if d > 0 {
                proof {
                    lemma_rfind_char(name@, '.');
                }
                let ext = name.substring_char(d + 1, m);
                proof {
                    assert(ext@ =~= name@.skip(d + 1));
                }
                media_lookup(ext)
            } else {
                "application/octet-stream"
            }
        },
        None => "application/octet-stream",
    }
}

} // verus!
