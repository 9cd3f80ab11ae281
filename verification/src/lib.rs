//! A minimal HTTP/1.1 static-asset server core.
//!
//! The crate holds the decision logic of the server: parsing the request
//! line, reading query parameters, rewriting the image-proxy route,
//! resolving a filesystem path under the configured root, choosing a media
//! type from the file extension, and laying out the response bytes. All of
//! it is specified and verified; the surrounding I/O (sockets, threads,
//! the filesystem) stays outside and feeds plain values in and out.

pub mod config;
pub mod decimal;
pub mod laws;
pub mod media;
pub mod request;
pub mod resolve;
pub mod response;
pub mod strutil;
