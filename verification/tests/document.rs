//! The document service: routes, static assets and forwarding.

use dsh_desktop_tauri::headers::{copy_except, is_field_safe, visible_text};
use dsh_desktop_tauri::web_document::{
    asset_response, forward, gated_index, handle, has_foreign_origin, host_response, is_static_path, mime_of,
    root_relative, serve_static, text_response, AssetRead, DocumentResponse, ForwardStep,
    HostReply, HostRequest, Route, StaticStep, BOOT_SCRIPT,
};
use http::{HeaderMap, HeaderName, HeaderValue};

fn fields(pairs: &[(&str, &str)]) -> HeaderMap {
    let mut map = HeaderMap::new();
    for (name, value) in pairs {
        map.append(
            HeaderName::from_bytes(name.as_bytes()).unwrap(),
            HeaderValue::from_str(value).unwrap(),
        );
    }
    map
}

fn connection() -> Option<(String, String)> {
    Some((String::from("http://127.0.0.1:19387"), String::from("dsh=secret")))
}

fn sent(step: ForwardStep) -> HostRequest {
    match step {
        ForwardStep::Send(request) => request,
        _ => panic!("the request is not sent"),
    }
}

fn answered(step: ForwardStep) -> DocumentResponse {
    match step {
        ForwardStep::Answer(response) => response,
        _ => panic!("the request is not answered"),
    }
}

fn is_plain(response: &DocumentResponse, status: u16) -> bool {
    response.status == status
        && response.body.is_empty()
        && response.headers.len() == 1
        && response.headers["content-type"] == "text/plain; charset=utf-8"
}

#[test]
fn media_types_follow_the_extension() {
    assert_eq!(mime_of("/dist/index.html"), "text/html; charset=utf-8");
    assert_eq!(mime_of("/dist/a.js"), "text/javascript; charset=utf-8");
    assert_eq!(mime_of("/dist/a.mjs"), "text/javascript; charset=utf-8");
    assert_eq!(mime_of("/dist/a.css"), "text/css; charset=utf-8");
    assert_eq!(mime_of("/dist/favicon.svg"), "image/svg+xml");
    assert_eq!(mime_of("/dist/a.json"), "application/json");
    assert_eq!(mime_of("/dist/manifest.webmanifest"), "application/json");
    assert_eq!(mime_of("/dist/a.woff2"), "font/woff2");
    assert_eq!(mime_of("/dist/a.png"), "image/png");
    assert_eq!(mime_of("/dist/a.ico"), "image/x-icon");
    assert_eq!(mime_of("/dist/a.bin"), "application/octet-stream");
    assert_eq!(mime_of("/dist/plain"), "application/octet-stream");
    assert_eq!(mime_of("/dist/.html"), "application/octet-stream");
    assert_eq!(mime_of("/dist/a.HTML"), "application/octet-stream");
    assert_eq!(mime_of("/dist.html/plain"), "application/octet-stream");
    assert_eq!(mime_of("/dist/a.tar.js"), "text/javascript; charset=utf-8");
    assert_eq!(mime_of("/"), "application/octet-stream");
}

#[test]
fn text_responses_have_one_header() {
    let response = text_response(418, "short");
    assert_eq!(response.status, 418);
    assert_eq!(response.body, b"short".to_vec());
    assert_eq!(response.headers.len(), 1);
    assert_eq!(response.headers["content-type"], "text/plain; charset=utf-8");
    assert!(is_plain(&text_response(404, ""), 404));
}

#[test]
fn targets_stay_below_the_root() {
    assert_eq!(root_relative("/dist", "/index.html"), Some(String::from("/dist/index.html")));
    assert_eq!(root_relative("/dist", "/assets/a.js"), Some(String::from("/dist/assets/a.js")));
    assert_eq!(root_relative("/dist", "//assets/./a.js/"), Some(String::from("/dist/assets/a.js")));
    assert_eq!(root_relative("/dist/", "a"), Some(String::from("/dist/a")));
    assert_eq!(root_relative("", "/a"), Some(String::from("a")));
    assert_eq!(root_relative("/dist", "/"), Some(String::from("/dist")));
    assert_eq!(root_relative("/dist", ""), Some(String::from("/dist")));
    assert_eq!(root_relative("/dist", "/assets/..a/b..c"), Some(String::from("/dist/assets/..a/b..c")));
    assert_eq!(root_relative("/dist", "/assets/.../x"), Some(String::from("/dist/assets/.../x")));
    assert_eq!(root_relative("/dist", "/assets/../secret"), None);
    assert_eq!(root_relative("/dist", ".."), None);
    assert_eq!(root_relative("/dist", "/assets/.."), None);
    assert_eq!(root_relative("/dist", "../"), None);
}

#[test]
fn the_client_document_has_few_paths() {
    assert!(is_static_path("/"));
    assert!(is_static_path("/index.html"));
    assert!(is_static_path("/assets/"));
    assert!(is_static_path("/assets/a.js"));
    assert!(is_static_path("/favicon.svg"));
    assert!(is_static_path("/manifest.webmanifest"));
    assert!(!is_static_path(""));
    assert!(!is_static_path("/assets"));
    assert!(!is_static_path("/api/remote.mux"));
    assert!(!is_static_path("/index.htm"));
    assert!(!is_static_path("/favicon.svg2"));
}

#[test]
fn every_other_path_goes_to_the_host() {
    assert!(matches!(handle(""), Route::Static(path) if path == "/"));
    assert!(matches!(handle("/assets/a.js"), Route::Static(path) if path == "/assets/a.js"));
    assert!(matches!(handle("/api/x"), Route::Forward(path) if path == "/api/x"));
}

#[test]
fn static_requests_are_checked_before_a_read() {
    assert!(matches!(
        serve_static("/dist", "GET", "/"),
        StaticStep::Read(target) if target == "/dist/index.html"
    ));
    assert!(matches!(
        serve_static("/dist", "HEAD", "/assets/a.js"),
        StaticStep::Read(target) if target == "/dist/assets/a.js"
    ));
    assert!(matches!(
        serve_static("/dist", "POST", "/"),
        StaticStep::Answer(response) if is_plain(&response, 405)
    ));
    assert!(matches!(
        serve_static("/dist", "get", "/"),
        StaticStep::Answer(response) if is_plain(&response, 405)
    ));
    assert!(matches!(
        serve_static("/dist", "GET", "/assets/../x"),
        StaticStep::Answer(response) if is_plain(&response, 403)
    ));
    assert!(matches!(
        serve_static("/dist", "POST", "/assets/../x"),
        StaticStep::Answer(response) if is_plain(&response, 405)
    ));
}

#[test]
fn the_gate_opens_the_first_head_only() {
    assert_eq!(
        gated_index("<html><head><head></html>"),
        format!("<html><head>{BOOT_SCRIPT}<head></html>")
    );
    assert_eq!(gated_index("<HEAD>"), "<HEAD>");
    assert_eq!(gated_index(""), "");
    assert_eq!(gated_index("<head>"), format!("<head>{BOOT_SCRIPT}"));
    assert_eq!(
        BOOT_SCRIPT,
        "<script>globalThis.__DSH_BOOT_READY__ = Promise.withResolvers()</script>"
    );
}

#[test]
fn the_index_route_is_html_with_the_gate() {
    let bytes = b"<head></head>\xff".to_vec();
    let response = asset_response("GET", "/", "/dist/index.html", AssetRead::Bytes(bytes));
    assert_eq!(response.status, 200);
    assert_eq!(response.headers.len(), 1);
    assert_eq!(response.headers["content-type"], "text/html; charset=utf-8");
    assert_eq!(response.body, format!("<head>{BOOT_SCRIPT}</head>\u{fffd}").into_bytes());
    let named = asset_response(
        "GET",
        "/index.html",
        "/dist/index.html",
        AssetRead::Bytes(b"<head>".to_vec()),
    );
    assert_eq!(named.body, format!("<head>{BOOT_SCRIPT}").into_bytes());
}

#[test]
fn other_assets_are_served_as_they_are() {
    let bytes = b"<head>\xff".to_vec();
    let response = asset_response(
        "GET",
        "/assets/a.js",
        "/dist/assets/a.js",
        AssetRead::Bytes(bytes.clone()),
    );
    assert_eq!(response.body, bytes);
    assert_eq!(response.headers["content-type"], "text/javascript; charset=utf-8");
}

#[test]
fn head_requests_get_no_body() {
    let response = asset_response(
        "HEAD",
        "/",
        "/dist/index.html",
        AssetRead::Bytes(b"<head>".to_vec()),
    );
    assert_eq!(response.status, 200);
    assert!(response.body.is_empty());
    assert_eq!(response.headers["content-type"], "text/html; charset=utf-8");
}

#[test]
fn failed_reads_are_told_apart() {
    let missing = asset_response("GET", "/assets/x", "/dist/assets/x", AssetRead::NotFound);
    assert!(is_plain(&missing, 404));
    let failed = asset_response("HEAD", "/", "/dist/index.html", AssetRead::Failed);
    assert!(is_plain(&failed, 500));
}

#[test]
fn foreign_origins_are_refused_before_all_else() {
    let page = fields(&[("origin", "https://example.com")]);
    assert!(is_plain(&answered(forward(&connection(), "GET", &page, "/api", None, vec![])), 403));
    assert!(is_plain(&answered(forward(&None, "GET", &page, "/api", None, vec![])), 403));
    let close = fields(&[("origin", "dsh-app://app/")]);
    assert!(is_plain(&answered(forward(&connection(), "GET", &close, "/api", None, vec![])), 403));
}

#[test]
fn foreign_origins_are_refused_with_any_cookie() {
    let page = fields(&[("origin", "https://example.com")]);
    let odd = Some((String::from("http://h:1"), String::from("a\nb")));
    assert!(has_foreign_origin(&page));
    assert!(is_plain(&answered(forward(&odd, "GET", &page, "/api", None, vec![])), 403));
    assert!(!has_foreign_origin(&HeaderMap::new()));
    assert!(!has_foreign_origin(&fields(&[("origin", "dsh-app://app")])));
}

#[test]
fn replaced_fields_do_not_reach_the_host() {
    let plain = fields(&[("origin", "dsh-app://app"), ("accept", "a"), ("accept", "b")]);
    let loud = fields(&[
        ("cookie", "x=1"),
        ("accept", "a"),
        ("host", "evil"),
        ("origin", "dsh-app://app"),
        ("sec-fetch-site", "cross-site"),
        ("accept", "b"),
        ("accept-encoding", "br"),
        ("cookie", "y=2"),
    ]);
    let first = sent(forward(&connection(), "PUT", &plain, "/a", Some("q"), b"x".to_vec()));
    let second = sent(forward(&connection(), "PUT", &loud, "/a", Some("q"), b"x".to_vec()));
    assert_eq!(first.method, second.method);
    assert_eq!(first.url, second.url);
    assert_eq!(first.body, second.body);
    assert_eq!(first.headers, second.headers);
    assert_eq!(first.headers.len(), 3);
}

#[test]
fn the_first_of_several_origins_counts() {
    let good = fields(&[("origin", "dsh-app://app"), ("origin", "https://example.com")]);
    sent(forward(&connection(), "GET", &good, "/api", None, vec![]));
    let bad = fields(&[("origin", "https://example.com"), ("origin", "dsh-app://app")]);
    assert!(is_plain(&answered(forward(&connection(), "GET", &bad, "/api", None, vec![])), 403));
}

#[test]
fn requests_wait_for_the_host() {
    let page = fields(&[("origin", "dsh-app://app")]);
    assert!(is_plain(&answered(forward(&None, "GET", &page, "/api", None, vec![])), 503));
    assert!(is_plain(&answered(forward(&None, "GET", &HeaderMap::new(), "/api", None, vec![])), 503));
}

#[test]
fn forwarded_requests_carry_the_shell_cookie() {
    let page = fields(&[
        ("host", "app"),
        ("origin", "dsh-app://app"),
        ("cookie", "page=1"),
        ("sec-fetch-site", "same-origin"),
        ("accept-encoding", "gzip"),
        ("accept", "text/html"),
        ("x-two", "first"),
        ("x-two", "second"),
    ]);
    let step = forward(
        &connection(),
        "POST",
        &page,
        "/api/x",
        Some("a=1&b=2"),
        b"{}".to_vec(),
    );
    let request = sent(step);
    assert_eq!(request.method, "POST");
    assert_eq!(request.body, b"{}".to_vec());
    assert_eq!(request.url, "http://127.0.0.1:19387/api/x?a=1&b=2");
    assert_eq!(request.headers.len(), 4);
    assert_eq!(request.headers["accept"], "text/html");
    let both: Vec<&HeaderValue> = request.headers.get_all("x-two").iter().collect();
    assert_eq!(both, vec!["first", "second"]);
    assert_eq!(request.headers.get_all("cookie").iter().count(), 1);
    assert_eq!(request.headers["cookie"], "dsh=secret");
    assert!(request.headers["cookie"].is_sensitive());
    assert!(!request.headers["accept"].is_sensitive());
}

#[test]
fn queries_are_kept_apart_from_their_absence() {
    let none = sent(forward(&connection(), "GET", &HeaderMap::new(), "/api", None, vec![]));
    assert_eq!(none.url, "http://127.0.0.1:19387/api");
    let empty = sent(forward(&connection(), "GET", &HeaderMap::new(), "/api", Some(""), vec![]));
    assert_eq!(empty.url, "http://127.0.0.1:19387/api?");
}

#[test]
fn sensitive_marks_survive_the_copy() {
    let mut page = HeaderMap::new();
    let mut value = HeaderValue::from_static("token");
    value.set_sensitive(true);
    page.insert("authorization", value);
    let request = sent(forward(&connection(), "GET", &page, "/api", None, vec![]));
    assert_eq!(request.headers["authorization"], "token");
    assert!(request.headers["authorization"].is_sensitive());
}

#[test]
fn many_fields_still_pass() {
    let mut page = HeaderMap::new();
    for i in 0..6553 {
        page.insert(
            HeaderName::from_bytes(format!("x-{i}").as_bytes()).unwrap(),
            HeaderValue::from(i as u16),
        );
    }
    let request = sent(forward(&connection(), "GET", &page, "/api", None, vec![]));
    assert_eq!(request.headers.len(), 6554);
    assert_eq!(request.headers["x-6552"], "6552");
    assert_eq!(request.headers["cookie"], "dsh=secret");
}

#[test]
fn host_answers_lose_their_cookies() {
    let reply = HostReply::Answered {
        status: 201,
        headers: fields(&[
            ("set-cookie", "dsh=secret"),
            ("content-encoding", "gzip"),
            ("content-length", "3"),
            ("content-type", "application/json"),
            ("link", "</a>"),
            ("set-cookie", "again=1"),
            ("link", "</b>"),
        ]),
        body: Some(b"{}".to_vec()),
    };
    let response = host_response(reply).unwrap();
    assert_eq!(response.status, 201);
    assert_eq!(response.body, b"{}".to_vec());
    assert_eq!(response.headers.len(), 3);
    assert_eq!(response.headers["content-type"], "application/json");
    let both: Vec<&HeaderValue> = response.headers.get_all("link").iter().collect();
    assert_eq!(both, vec!["</a>", "</b>"]);
}

#[test]
fn failed_forwards_are_bad_gateways() {
    assert!(is_plain(&host_response(HostReply::Failed).unwrap(), 502));
    let odd = HostReply::Answered { status: 99, headers: HeaderMap::new(), body: None };
    let response = host_response(odd).unwrap();
    assert_eq!(response.status, 502);
    assert!(response.body.is_empty());
    assert_eq!(response.headers.len(), 0);
    let top = HostReply::Answered { status: 999, headers: HeaderMap::new(), body: None };
    assert_eq!(host_response(top).unwrap().status, 999);
    let over = HostReply::Answered { status: 1000, headers: HeaderMap::new(), body: None };
    assert_eq!(host_response(over).unwrap().status, 502);
}

#[test]
fn field_values_are_checked() {
    assert!(is_field_safe("dsh=secret; path=/\t"));
    assert!(is_field_safe("caf\u{e9}"));
    assert!(is_field_safe(""));
    assert!(!is_field_safe("a\nb"));
    assert!(!is_field_safe("a\u{7f}"));
    assert_eq!(visible_text(&b"a b\t~".to_vec()), Some(String::from("a b\t~")));
    assert_eq!(visible_text(&"caf\u{e9}".as_bytes().to_vec()), None);
    assert_eq!(visible_text(&vec![127]), None);
    assert_eq!(visible_text(&vec![]), Some(String::new()));
}

#[test]
fn copies_drop_the_named_fields() {
    let from = fields(&[("a", "1"), ("b", "2"), ("a", "3")]);
    let copied = copy_except(&from, &["b"]).unwrap();
    let kept: Vec<&HeaderValue> = copied.get_all("a").iter().collect();
    assert_eq!(kept, vec!["1", "3"]);
    assert_eq!(copied.len(), 2);
    let all = copy_except(&from, &[]).unwrap();
    assert_eq!(all, from);
}
