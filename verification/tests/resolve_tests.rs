use static_server::config::root_dir_from_args;
use static_server::request::parse_query;
use static_server::resolve::{decode_image_url, resolve_request, Resolution};

fn expect_serve(r: Resolution) -> (String, &'static str) {
    match r {
        Resolution::Serve { path, content_type } => (path, content_type),
        _ => panic!("expected a serve target"),
    }
}

#[test]
fn root_path_serves_index() {
    let (path, ct) = expect_serve(resolve_request("GET / HTTP/1.1\r\nHost: x\r\n\r\n", "/web"));
    assert_eq!(path, "/web/index.html");
    assert_eq!(ct, "text/html");
}

#[test]
fn plain_asset_path() {
    let (path, ct) = expect_serve(resolve_request("GET /app.css HTTP/1.1\r\n\r\n", "/web"));
    assert_eq!(path, "/web/app.css");
    assert_eq!(ct, "text/css");
}

#[test]
fn query_is_stripped_off_plain_paths() {
    let (path, ct) = expect_serve(resolve_request("GET /a.js?v=12 HTTP/1.1\r\n\r\n", "/web"));
    assert_eq!(path, "/web/a.js");
    assert_eq!(ct, "application/javascript");
}

#[test]
fn image_route_decodes_url_parameter() {
    let (path, ct) = expect_serve(resolve_request(
        "GET /_next/image?url=%2Fphotos%2Fa.png&w=200&q=80 HTTP/1.1\r\n\r\n",
        "/web",
    ));
    assert_eq!(path, "/web/photos/a.png");
    assert_eq!(ct, "image/png");
}

#[test]
fn image_route_absolute_url_redirects() {
    let r = resolve_request(
        "GET /_next/image?url=https%3A%2F%2Fexample.com%2Fx.png HTTP/1.1\r\n\r\n",
        "/web",
    );
    match r {
        Resolution::Redirect { location } => assert_eq!(location, "https://example.com/x.png"),
        _ => panic!("expected a redirect"),
    }
}

#[test]
fn image_route_without_url_parameter_keeps_the_target() {
    let (path, ct) = expect_serve(resolve_request("GET /_next/image?w=5 HTTP/1.1\r\n\r\n", "/r"));
    assert_eq!(path, "/r/_next/image?w=5");
    assert_eq!(ct, "application/octet-stream");
}

#[test]
fn non_get_method_is_rejected() {
    assert!(matches!(
        resolve_request("POST /x HTTP/1.1\r\n\r\n", "/web"),
        Resolution::MethodNotAllowed
    ));
}

#[test]
fn empty_request_is_rejected() {
    assert!(matches!(resolve_request("", "/web"), Resolution::MethodNotAllowed));
}

#[test]
fn lone_method_is_rejected() {
    assert!(matches!(resolve_request("GET\r\n\r\n", "/web"), Resolution::MethodNotAllowed));
}

#[test]
fn leading_slashes_are_all_stripped_before_the_join() {
    let (path, _) = expect_serve(resolve_request("GET //x HTTP/1.1\r\n\r\n", "/r"));
    assert_eq!(path, "/r/x");
}

#[test]
fn root_with_trailing_slash_gets_no_second_separator() {
    let (path, _) = expect_serve(resolve_request("GET /a.css HTTP/1.1\r\n\r\n", "/r/"));
    assert_eq!(path, "/r/a.css");
}

#[test]
fn empty_root_serves_relative_paths() {
    let (path, _) = expect_serve(resolve_request("GET /a.css HTTP/1.1\r\n\r\n", ""));
    assert_eq!(path, "a.css");
}

#[test]
fn identical_requests_resolve_identically() {
    let raw = "GET /_next/image?url=%2Fb%2Dc.webp HTTP/1.1\r\n\r\n";
    let (p1, c1) = expect_serve(resolve_request(raw, "/web"));
    let (p2, c2) = expect_serve(resolve_request(raw, "/web"));
    assert_eq!(p1, p2);
    assert_eq!(c1, c2);
    assert_eq!(p1, "/web/b-c.webp");
    assert_eq!(c1, "image/webp");
}

#[test]
fn decode_applies_the_whole_table() {
    assert_eq!(
        decode_image_url("%2Fa%20b%3Ac%2Dd%2Ee%5Ff%7Eg%2Bh%23i%3Fj%26k%3Dl%40m%24n"),
        "/a b:c-d.e_f~g+h#i?j&k=l@m$n"
    );
}

#[test]
fn decode_order_lets_percent_escapes_cascade() {
    assert_eq!(decode_image_url("%2Fa%2520b"), "/a b");
}

#[test]
fn decode_leaves_unknown_escapes_alone() {
    assert_eq!(decode_image_url("%41%7B"), "%41%7B");
}

fn args(items: &[&str]) -> Vec<String> {
    items.iter().map(|s| s.to_string()).collect()
}

#[test]
fn dir_flag_selects_the_root() {
    assert_eq!(root_dir_from_args(&args(&["server", "--dir", "/srv/www"])), "/srv/www");
}

#[test]
fn first_dir_flag_wins() {
    assert_eq!(root_dir_from_args(&args(&["s", "--dir", "/a", "--dir", "/b"])), "/a");
}

#[test]
fn missing_dir_flag_uses_the_default() {
    assert_eq!(root_dir_from_args(&args(&["server"])), "./../web/dist");
}

#[test]
fn trailing_dir_flag_uses_the_default() {
    assert_eq!(root_dir_from_args(&args(&["server", "--dir"])), "./../web/dist");
}

#[test]
fn query_pairs_last_key_wins() {
    let q = parse_query("a=1&b=2&a=3");
    assert_eq!(q.get_param("a").map(String::as_str), Some("3"));
    assert_eq!(q.get_param("b").map(String::as_str), Some("2"));
    assert_eq!(q.get_param("c"), None);
}

#[test]
fn query_fragment_without_equals_is_dropped() {
    let q = parse_query("x&k=");
    assert_eq!(q.get_param("x"), None);
    assert_eq!(q.get_param("k").map(String::as_str), Some(""));
}

#[test]
fn query_value_runs_from_the_first_equals() {
    let q = parse_query("k=a=b");
    assert_eq!(q.get_param("k").map(String::as_str), Some("a=b"));
}
