//! Path resolution: from the raw request target to the filesystem path
//! that is served, the redirect that is answered, or the rejection of the
//! method. The image-proxy route (`/_next/image`) takes its path from the
//! `url` query parameter after applying a fixed, ordered table of
//! percent-escape replacements; an absolute `http(s)://` result becomes a
//! redirect instead of a file.

use vstd::prelude::*;
use crate::media::{extension_of, get_content_type, media_type_of};
use crate::request::{
    is_get_request, lookup_param, parse_query, parse_request_line, query_pairs, target_of,
};
use crate::strutil::{
    find_char, has_prefix, join_path, join_under, lemma_find_char, replace_all, replace_in,
    scan_char, starts_with_str, str_eq, strip_slashes, trim_leading_slashes,
};

verus! {

/// The target's path portion: everything before the first `'?'`.
pub open spec fn path_portion(target: Seq<char>) -> Seq<char> {
    let k = find_char(target, '?');
    if k < 0 {
        target
    } else {
        target.take(k)
    }
}

/// The target's query string: everything after the first `'?'`.
pub open spec fn query_portion(target: Seq<char>) -> Seq<char> {
    let k = find_char(target, '?');
    if k < 0 {
        Seq::empty()
    } else {
        target.skip(k + 1)
    }
}

/// The fixed replacement table, applied in this exact order; escapes
/// outside the table stay as they are.
pub open spec fn decoded_url(s: Seq<char>) -> Seq<char> {
    let s01 = replace_all(s, "%25"@, "%"@);
    let s02 = replace_all(s01, "%20"@, " "@);
    let s03 = replace_all(s02, "%2F"@, "/"@);
    let s04 = replace_all(s03, "%3A"@, ":"@);
    let s05 = replace_all(s04, "%2D"@, "-"@);
    let s06 = replace_all(s05, "%2E"@, "."@);
    let s07 = replace_all(s06, "%5F"@, "_"@);
    let s08 = replace_all(s07, "%7E"@, "~"@);
    let s09 = replace_all(s08, "%2B"@, "+"@);
    let s10 = replace_all(s09, "%23"@, "#"@);
    let s11 = replace_all(s10, "%3F"@, "?"@);
    let s12 = replace_all(s11, "%26"@, "&"@);
    let s13 = replace_all(s12, "%3D"@, "="@);
    let s14 = replace_all(s13, "%40"@, "@"@);
    replace_all(s14, "%24"@, "$"@)
}

/// Applies the replacement table to the `url` parameter of an image
/// route.
pub fn decode_image_url(s: &str) -> (r: String)
    ensures
        r@ == decoded_url(s@),
{
    proof {
        reveal_strlit("%25");
        reveal_strlit("%20");
        reveal_strlit("%2F");
        reveal_strlit("%3A");
        reveal_strlit("%2D");
        reveal_strlit("%2E");
        reveal_strlit("%5F");
        reveal_strlit("%7E");
        reveal_strlit("%2B");
        reveal_strlit("%23");
        reveal_strlit("%3F");
        reveal_strlit("%26");
        reveal_strlit("%3D");
        reveal_strlit("%40");
        reveal_strlit("%24");
    }
    let s01 = replace_in(s, "%25", "%");
    let s02 = replace_in(s01.as_str(), "%20", " ");
    let s03 = replace_in(s02.as_str(), "%2F", "/");
    let s04 = replace_in(s03.as_str(), "%3A", ":");
    let s05 = replace_in(s04.as_str(), "%2D", "-");
    let s06 = replace_in(s05.as_str(), "%2E", ".");
    let s07 = replace_in(s06.as_str(), "%5F", "_");
    let s08 = replace_in(s07.as_str(), "%7E", "~");
    let s09 = replace_in(s08.as_str(), "%2B", "+");
    let s10 = replace_in(s09.as_str(), "%23", "#");
    let s11 = replace_in(s10.as_str(), "%3F", "?");
    let s12 = replace_in(s11.as_str(), "%26", "&");
    let s13 = replace_in(s12.as_str(), "%3D", "=");
    let s14 = replace_in(s13.as_str(), "%40", "@");
    replace_in(s14.as_str(), "%24", "$")
}

/// A target is on the image-proxy route when it carries this prefix.
pub open spec fn is_image_route(target: Seq<char>) -> bool {
    has_prefix(target, "/_next/image"@)
}

/// The path a target asks for, before the root rewrite and the join:
/// on the image route, the decoded `url` parameter when one is present
/// and the target itself otherwise (the route then rewrites nothing);
/// off the route, the path portion of the target.
pub open spec fn candidate_path(target: Seq<char>) -> Seq<char> {
    if is_image_route(target) {
        match lookup_param(query_pairs(query_portion(target)), "url"@) {
            Some(u) => decoded_url(u),
            None => target,
        }
    } else {
        path_portion(target)
    }
}

/// An image-route target whose decoded `url` parameter is an absolute
/// web address is answered with a redirect to it.
pub open spec fn is_redirect(target: Seq<char>) -> bool {
    &&& is_image_route(target)
    &&& lookup_param(query_pairs(query_portion(target)), "url"@) is Some
    &&& (has_prefix(candidate_path(target), "http://"@) || has_prefix(
        candidate_path(target),
        "https://"@,
    ))
}

/// A bare `/` asks for the index document.
pub open spec fn rewrite_root_path(p: Seq<char>) -> Seq<char> {
    if p == "/"@ {
        "/index.html"@
    } else {
        p
    }
}

/// The filesystem path a non-redirect target is resolved to: the root
/// joined with the candidate path, leading slashes stripped.
pub open spec fn serve_path(root: Seq<char>, target: Seq<char>) -> Seq<char> {
    join_path(root, strip_slashes(rewrite_root_path(candidate_path(target))))
}

/// The outcome of resolution, as the specification sees it.
pub enum ResolvedTarget {
    /// The request was not an acceptable `GET`.
    MethodNotAllowed,
    /// Answer 302 with this location.
    Redirect(Seq<char>),
    /// Try to serve this filesystem path with this media type.
    Serve { path: Seq<char>, media: Seq<char> },
}

/// What the request resolves to, given the raw request text and the
/// configured root directory.
pub open spec fn spec_resolution(req: Seq<char>, root: Seq<char>) -> ResolvedTarget {
    if !is_get_request(req) {
        ResolvedTarget::MethodNotAllowed
    } else {
        let target = target_of(req);
        if is_redirect(target) {
            ResolvedTarget::Redirect(candidate_path(target))
        } else {
            ResolvedTarget::Serve {
                path: serve_path(root, target),
                media: media_type_of(extension_of(serve_path(root, target))),
            }
        }
    }
}

/// The outcome of resolution.
pub enum Resolution {
    /// The request was not an acceptable `GET`.
    MethodNotAllowed,
    /// Answer 302 with this location.
    Redirect { location: String },
    /// Try to serve this filesystem path with this media type.
    Serve { path: String, content_type: &'static str },
}

impl View for Resolution {
    type V = ResolvedTarget;

    open spec fn view(&self) -> ResolvedTarget {
        match self {
            Resolution::MethodNotAllowed => ResolvedTarget::MethodNotAllowed,
            Resolution::Redirect { location } => ResolvedTarget::Redirect(location@),
            Resolution::Serve { path, content_type } => ResolvedTarget::Serve {
                path: path@,
                media: content_type@,
            },
        }
    }
}

/// Resolves one raw request against the root directory: the whole
/// decision pipeline short of the filesystem.
pub fn resolve_request(request: &str, root: &str) -> (r: Resolution)
    ensures
        r@ == spec_resolution(request@, root@),
{
    let target = match parse_request_line(request) {
        None => {
            return Resolution::MethodNotAllowed;
        },
        Some(t) => t,
    };
    let n = target.as_str().unicode_len();
    let query: &str = match scan_char(target.as_str(), '?') {
        Some(k) => {
            proof {
                lemma_find_char(target@, '?');
            }
            let q = target.as_str().substring_char(k + 1, n);
            proof {
                assert(q@ =~= query_portion(target@));
            }
            q
        },
        None => {
            proof {
                reveal_strlit("");
                assert(""@ =~= query_portion(target@));
            }
            ""
        },
    };
    let params = parse_query(query);
    let candidate: String;
    if starts_with_str(target.as_str(), "/_next/image") {
        match params.get_param("url") {
            Some(u) => {
                let decoded = decode_image_url(u.as_str());
                if starts_with_str(decoded.as_str(), "http://") || starts_with_str(
                    decoded.as_str(),
                    "https://",
                ) {
                    return Resolution::Redirect { location: decoded };
                }
                candidate = decoded;
            },
            None => {
                candidate = target;
            },
        }
    } else {
        let k = scan_char(target.as_str(), '?');
        match k {
            Some(j) => {
                proof {
                    lemma_find_char(target@, '?');
                }
                let p = target.as_str().substring_char(0, j);
                proof {
                    assert(p@ =~= path_portion(target@));
                }
                candidate = p.to_owned();
            },
            None => {
                candidate = target;
            },
        }
    }
    let rewritten: &str = if str_eq(candidate.as_str(), "/") {
        "/index.html"
    } else {
        candidate.as_str()
    };
    let rel = trim_leading_slashes(rewritten);
    let path = join_under(root, rel);
    let content_type = get_content_type(path.as_str());
    Resolution::Serve { path, content_type }
}

} // verus!
