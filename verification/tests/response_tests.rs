use static_server::decimal::decimal_string;
use static_server::media::get_content_type;
use static_server::response::{
    plan_read, response_method_not_allowed, response_ok, response_read_error, response_redirect,
};

#[test]
fn known_extensions_map_to_their_media_types() {
    let table = [
        ("a.html", "text/html"),
        ("a.htm", "text/html"),
        ("a.css", "text/css"),
        ("a.js", "application/javascript"),
        ("a.mjs", "application/javascript"),
        ("a.json", "application/json"),
        ("a.xml", "application/xml"),
        ("a.pdf", "application/pdf"),
        ("a.zip", "application/zip"),
        ("a.doc", "application/msword"),
        ("a.docx", "application/vnd.openxmlformats-officedocument.wordprocessingml.document"),
        ("a.xls", "application/vnd.ms-excel"),
        ("a.xlsx", "application/vnd.openxmlformats-officedocument.spreadsheetml.sheet"),
        ("a.ico", "image/x-icon"),
        ("a.png", "image/png"),
        ("a.jpg", "image/jpeg"),
        ("a.jpeg", "image/jpeg"),
        ("a.gif", "image/gif"),
        ("a.svg", "image/svg+xml"),
        ("a.webp", "image/webp"),
        ("a.mp3", "audio/mpeg"),
        ("a.wav", "audio/wav"),
        ("a.mp4", "video/mp4"),
        ("a.webm", "video/webm"),
        ("a.txt", "text/plain"),
        ("a.csv", "text/csv"),
        ("a.md", "text/markdown"),
        ("a.woff", "font/woff"),
        ("a.woff2", "font/woff2"),
        ("a.ttf", "font/ttf"),
        ("a.otf", "font/otf"),
        ("a.eot", "application/vnd.ms-fontobject"),
    ];
    for (path, media) in table {
        assert_eq!(get_content_type(path), media, "for {}", path);
    }
}

#[test]
fn unknown_extensions_fall_back_to_octet_stream() {
    assert_eq!(get_content_type("/web/a.tar.gz"), "application/octet-stream");
    assert_eq!(get_content_type("/web/a.PNG"), "application/octet-stream");
    assert_eq!(get_content_type("/web/noext"), "application/octet-stream");
    assert_eq!(get_content_type("/web/.bashrc"), "application/octet-stream");
    assert_eq!(get_content_type("/web/trailing."), "application/octet-stream");
}

#[test]
fn extension_comes_from_the_final_component() {
    assert_eq!(get_content_type("/a.css/b.png"), "image/png");
    assert_eq!(get_content_type("dir.d/file"), "application/octet-stream");
}

#[test]
fn content_length_counts_the_body_bytes_exactly() {
    let body = b"hello".to_vec();
    let r = response_ok("text/html", body);
    assert_eq!(
        r.head,
        "HTTP/1.1 200 OK\r\nContent-Type: text/html\r\nContent-Length: 5\r\nConnection: close\r\n\r\n"
    );
    assert_eq!(r.body, b"hello".to_vec());
}

#[test]
fn empty_body_has_content_length_zero() {
    let r = response_ok("application/octet-stream", Vec::new());
    assert!(r.head.contains("Content-Length: 0\r\n"));
    assert!(r.body.is_empty());
}

#[test]
fn redirect_response_carries_the_location_verbatim() {
    let r = response_redirect("https://example.com/x.png");
    assert_eq!(
        r.head,
        "HTTP/1.1 302 Found\r\nLocation: https://example.com/x.png\r\nConnection: close\r\n\r\n"
    );
    assert!(r.body.is_empty());
}

#[test]
fn method_not_allowed_is_exactly_the_405_text() {
    let r = response_method_not_allowed();
    assert_eq!(r.head, "HTTP/1.1 405 Method Not Allowed\r\n\r\nMethod not allowed!");
    assert!(r.body.is_empty());
}

#[test]
fn read_error_texts_name_what_failed() {
    assert_eq!(
        response_read_error(false).head,
        "HTTP/1.1 500 Internal Server Error\r\nContent-Type: text/plain\r\nConnection: close\r\n\r\nError reading file"
    );
    assert_eq!(
        response_read_error(true).head,
        "HTTP/1.1 500 Internal Server Error\r\nContent-Type: text/plain\r\nConnection: close\r\n\r\nError reading index.html"
    );
}

#[test]
fn missing_file_falls_back_to_the_index_document() {
    let plan = plan_read("/web/missing.js".to_string(), "application/javascript", false, "/web");
    assert_eq!(plan.path, "/web/index.html");
    assert_eq!(plan.content_type, "text/html");
    assert!(plan.fallback);
    let index_bytes = b"<html>app</html>".to_vec();
    let r = response_ok(plan.content_type, index_bytes.clone());
    assert!(r.head.starts_with("HTTP/1.1 200 OK\r\n"));
    assert_eq!(r.body, index_bytes);
}

#[test]
fn existing_file_keeps_its_path_and_media_type() {
    let plan = plan_read("/web/a.svg".to_string(), "image/svg+xml", true, "/web");
    assert_eq!(plan.path, "/web/a.svg");
    assert_eq!(plan.content_type, "image/svg+xml");
    assert!(!plan.fallback);
}

#[test]
fn identical_bodies_give_identical_responses() {
    let a = response_ok("text/plain", b"same".to_vec());
    let b = response_ok("text/plain", b"same".to_vec());
    assert_eq!(a.head, b.head);
    assert_eq!(a.body, b.body);
}

#[test]
fn decimal_rendering_is_plain_base_ten() {
    assert_eq!(decimal_string(0), "0");
    assert_eq!(decimal_string(7), "7");
    assert_eq!(decimal_string(10), "10");
    assert_eq!(decimal_string(1024), "1024");
    assert_eq!(decimal_string(18446744073709551615), "18446744073709551615");
}
