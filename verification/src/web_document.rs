//! Local Web document service for the application origin: static client
//! assets with the boot-readiness script, and authenticated forwarding of
//! every other request to the Desktop Host with shell-held credentials.
//!
//! Reading an asset and sending a request are the caller's. A step says which
//! of them is due, and takes what came of it.

use vstd::prelude::*;

use crate::headers::{copy_except, first_value, no_fields, set_field};
use crate::path::{extension, join};
use crate::shell::APP_ORIGIN;
use crate::text::{chars_of, replace_first, same_text, starts_with, text_of_bytes};

verus! {

/// Boot gate installed into the served index; the client entry awaits it.
pub const BOOT_SCRIPT: &'static str =
    "<script>globalThis.__DSH_BOOT_READY__ = Promise.withResolvers()</script>";

/// Request headers the shell replaces before forwarding.
pub const STRIPPED_REQUEST_HEADERS: [&'static str; 5] = [
    "host",
    "origin",
    "cookie",
    "sec-fetch-site",
    "accept-encoding",
];

/// Response headers owned by the forwarding hop, not the Host payload.
pub const STRIPPED_RESPONSE_HEADERS: [&'static str; 3] = [
    "content-encoding",
    "content-length",
    "set-cookie",
];

/// An answer to the page.
pub struct DocumentResponse {
    pub status: u16,
    pub headers: http::HeaderMap<http::HeaderValue>,
    pub body: Vec<u8>,
}

/// Who answers a request.
pub enum Route {
    /// The client document, at this path.
    Static(String),
    /// The Host, at this path.
    Forward(String),
}

/// What a request for a static path needs next.
pub enum StaticStep {
    /// Nothing: this is the answer.
    Answer(DocumentResponse),
    /// The contents of the file at this path, for [`asset_response`].
    Read(String),
}

/// What came of reading a static asset.
pub enum AssetRead {
    Bytes(Vec<u8>),
    NotFound,
    Failed,
}

/// A request to send to the Host.
pub struct HostRequest {
    pub method: String,
    pub url: String,
    pub headers: http::HeaderMap<http::HeaderValue>,
    pub body: Vec<u8>,
}

/// What a forwarded request needs next.
pub enum ForwardStep {
    /// Nothing: this is the answer.
    Answer(DocumentResponse),
    /// This request sent, its reply for [`host_response`].
    Send(HostRequest),
    /// The request has more header fields than a header map can hold.
    Overflow,
}

/// What came of sending a request to the Host.
pub enum HostReply {
    Failed,
    Answered {
        status: u16,
        headers: http::HeaderMap<http::HeaderValue>,
        /// The body, where it could be read to its end.
        body: Option<Vec<u8>>,
    },
}

/// The media type for a file extension.
pub open spec fn mime_text(extension: Option<Seq<char>>) -> Seq<char> {
    match extension {
        Some(name) => if name == "html"@ {
            "text/html; charset=utf-8"@
        } else if name == "js"@ || name == "mjs"@ {
            "text/javascript; charset=utf-8"@
        } else if name == "css"@ {
            "text/css; charset=utf-8"@
        } else if name == "svg"@ {
            "image/svg+xml"@
        } else if name == "json"@ || name == "webmanifest"@ {
            "application/json"@
        } else if name == "woff2"@ {
            "font/woff2"@
        } else if name == "png"@ {
            "image/png"@
        } else if name == "ico"@ {
            "image/x-icon"@
        } else {
            "application/octet-stream"@
        },
        None => "application/octet-stream"@,
    }
}

/// The parts of `path` between its separators.
pub open spec fn segments(path: Seq<char>) -> Seq<Seq<char>>
    decreases path.len(),
{
    if path.len() == 0 {
        seq![seq![]]
    } else {
        let earlier = segments(path.drop_last());
        if path.last() == '/' {
            earlier.push(seq![])
        } else {
            earlier.drop_last().push(earlier.last().push(path.last()))
        }
    }
}

/// Whether a part of `path` climbs to the parent directory.
pub open spec fn climbs(path: Seq<char>) -> bool {
    segments(path).contains(seq!['.', '.'])
}

/// The path reached from `base` through `parts`; empty parts and `.` stay
/// where they are.
pub open spec fn descended(base: Seq<char>, parts: Seq<Seq<char>>) -> Seq<char>
    decreases parts.len(),
{
    if parts.len() == 0 {
        base
    } else {
        let upper = descended(base, parts.drop_last());
        let part = parts.last();
        if part.len() == 0 || part == seq!['.'] {
            upper
        } else {
            crate::path::joined(upper, part)
        }
    }
}

/// Whether the client document holds `pathname`.
pub open spec fn static_path(pathname: Seq<char>) -> bool {
    ||| pathname == "/"@
    ||| pathname == "/index.html"@
    ||| crate::text::begins_with(pathname, "/assets/"@)
    ||| pathname == "/favicon.svg"@
    ||| pathname == "/manifest.webmanifest"@
}

/// Whether `pathname` asks for the index.
pub open spec fn index_path(pathname: Seq<char>) -> bool {
    pathname == "/"@ || pathname == "/index.html"@
}

/// The path below the document root that `pathname` asks for.
pub open spec fn asset_path(pathname: Seq<char>) -> Seq<char> {
    if pathname == "/"@ {
        "/index.html"@
    } else {
        pathname
    }
}

/// The index with the boot gate behind its first `<head>`.
pub open spec fn gated(document: Seq<char>) -> Seq<char> {
    crate::text::replaced_first(document, "<head>"@, "<head>"@ + BOOT_SCRIPT@)
}

/// `headers` holds one field: this content type.
pub open spec fn only_content_type(
    headers: http::HeaderMap<http::HeaderValue>,
    mime: Seq<char>,
) -> bool {
    forall|name: Seq<char>| #[trigger]
        crate::headers::header_values(headers, name) == (if name == "content-type"@ {
            seq![(vstd::utf8::encode_utf8(mime), false)]
        } else {
            seq![]
        })
}

/// `response` has this status, content type and body, and no other header.
pub open spec fn is_document(
    response: DocumentResponse,
    status: u16,
    mime: Seq<char>,
    body: Seq<u8>,
) -> bool {
    &&& response.status == status
    &&& only_content_type(response.headers, mime)
    &&& response.body@ == body
}

/// `response` is an empty plain-text answer with this status.
pub open spec fn is_refusal(response: DocumentResponse, status: u16) -> bool {
    is_document(response, status, "text/plain; charset=utf-8"@, seq![])
}

/// Whether a request names an origin other than the application's.
pub open spec fn foreign_origin(headers: http::HeaderMap<http::HeaderValue>) -> bool {
    let origins = crate::headers::header_values(headers, "origin"@);
    origins.len() > 0 && origins[0].0 != vstd::utf8::encode_utf8(APP_ORIGIN@)
}

/// `outgoing` carries the page's header fields, every value in order, but for
/// those that the shell replaces, and `cookie` as the only cookie, marked
/// sensitive.
pub open spec fn authenticated(
    page: http::HeaderMap<http::HeaderValue>,
    outgoing: http::HeaderMap<http::HeaderValue>,
    cookie: Seq<char>,
) -> bool {
    forall|name: Seq<char>| #[trigger]
        crate::headers::header_values(outgoing, name) == (if name == "cookie"@ {
            seq![(vstd::utf8::encode_utf8(cookie), true)]
        } else if crate::headers::named_in(STRIPPED_REQUEST_HEADERS@, name) {
            seq![]
        } else {
            crate::headers::header_values(page, name)
        })
}

/// The Host URL for a path and an optional query.
pub open spec fn host_url(
    origin: Seq<char>,
    pathname: Seq<char>,
    query: Option<Seq<char>>,
) -> Seq<char> {
    match query {
        Some(text) => origin + pathname + "?"@ + text,
        None => origin + pathname,
    }
}

/// The media type of the file at `path`, by its extension.
pub fn mime_of(path: &str) -> (mime: &'static str)
    ensures
        mime@ == mime_text(crate::path::extension_of(path@)),
        crate::headers::field_safe(mime@),
{
    proof {
        reveal_strlit("text/html; charset=utf-8");
        crate::headers::lemma_printable_safe("text/html; charset=utf-8"@);
        reveal_strlit("text/javascript; charset=utf-8");
        crate::headers::lemma_printable_safe("text/javascript; charset=utf-8"@);
        reveal_strlit("text/css; charset=utf-8");
        crate::headers::lemma_printable_safe("text/css; charset=utf-8"@);
        reveal_strlit("image/svg+xml");
        crate::headers::lemma_printable_safe("image/svg+xml"@);
        reveal_strlit("application/json");
        crate::headers::lemma_printable_safe("application/json"@);
        reveal_strlit("font/woff2");
        crate::headers::lemma_printable_safe("font/woff2"@);
        reveal_strlit("image/png");
        crate::headers::lemma_printable_safe("image/png"@);
        reveal_strlit("image/x-icon");
        crate::headers::lemma_printable_safe("image/x-icon"@);
        reveal_strlit("application/octet-stream");
        crate::headers::lemma_printable_safe("application/octet-stream"@);
    }
    match extension(path) {
        Some(name) => {
            let name = name.as_str();
            if same_text(name, "html") {
                "text/html; charset=utf-8"
            } else if same_text(name, "js") || same_text(name, "mjs") {
                "text/javascript; charset=utf-8"
            } else if same_text(name, "css") {
                "text/css; charset=utf-8"
            } else if same_text(name, "svg") {
                "image/svg+xml"
            } else if same_text(name, "json") || same_text(name, "webmanifest") {
                "application/json"
            } else if same_text(name, "woff2") {
                "font/woff2"
            } else if same_text(name, "png") {
                "image/png"
            } else if same_text(name, "ico") {
                "image/x-icon"
            } else {
                "application/octet-stream"
            }
        },
        None => "application/octet-stream",
    }
}

/// An answer with one header, its content type.
fn document_response(status: u16, mime: &str, body: Vec<u8>) -> (response: DocumentResponse)
    requires
        crate::headers::field_safe(mime@),
    ensures
        is_document(response, status, mime@, body@),
{
    let mut headers = no_fields();
    proof {
        reveal_strlit("content-type");
    }
    let _done: bool = set_field(&mut headers, "content-type", mime, false);
    DocumentResponse { status, headers, body }
}

/// A plain-text answer.
pub fn text_response(status: u16, body: &str) -> (response: DocumentResponse)
    ensures
        is_document(
            response,
            status,
            "text/plain; charset=utf-8"@,
            vstd::utf8::encode_utf8(body@),
        ),
        body@.len() == 0 ==> is_refusal(response, status),
{
    proof {
        reveal_strlit("text/plain; charset=utf-8");
        crate::headers::lemma_printable_safe("text/plain; charset=utf-8"@);
        if body@.len() == 0 {
            assert(vstd::utf8::encode_utf8(body@) =~= seq![]);
        }
    }
    document_response(status, "text/plain; charset=utf-8", body.as_bytes_vec())
}

/// An empty plain-text answer with this status.
fn refusal(status: u16) -> (response: DocumentResponse)
    ensures
        is_refusal(response, status),
{
    proof {
        reveal_strlit("");
    }
    text_response(status, "")
}

/// The file below `root` that `pathname` asks for. Rejects path components
/// that could escape the document root.
pub fn root_relative(root: &str, pathname: &str) -> (target: Option<String>)
    ensures
        target is Some <==> !climbs(pathname@),
        target matches Some(path) ==> path@ == descended(root@, segments(pathname@)),
{
    let chars = chars_of(pathname);
    let mut target = root.to_owned();
    let mut start: usize = 0;
    let mut at: usize = 0;
    let ghost mut done: Seq<Seq<char>> = seq![];
    let ghost climb: Seq<char> = seq!['.', '.'];
    assert(pathname@.take(0) =~= seq![]);
    assert(done.push(pathname@.subrange(0, 0)) =~= segments(seq![]));
    loop
        invariant
            start <= at <= chars.len(),
            chars@ == pathname@,
            climb == seq!['.', '.'],
            segments(pathname@.take(at as int)) == done.push(
                pathname@.subrange(start as int, at as int),
            ),
            !done.contains(climb),
            target@ == descended(root@, done),
        decreases chars.len() - at,
    {
        let ghost part = pathname@.subrange(start as int, at as int);
        if at == chars.len() || chars[at] == '/' {
            let ghost closed = done.push(part);
            proof {
                assert(closed.drop_last() =~= done);
                assert(closed.last() == part);
            }
            if at - start == 2 && chars[start] == '.' && chars[start + 1] == '.' {
                proof {
                    assert(part =~= climb);
                    lemma_segment_stays(pathname@, at as int, done.len() as int);
                    assert(segments(pathname@)[done.len() as int] == climb);
                }
                return None;
            }
            proof {
                if part == climb {
                    assert(part[0] == '.' && part[1] == '.');
                }
                assert(!closed.contains(climb)) by {
                    if closed.contains(climb) {
                        let k = choose|k: int| 0 <= k < closed.len() && closed[k] == climb;
                        if k < done.len() {
                            assert(done[k] == climb);
                        }
                    }
                }
            }
            if at > start && !(at - start == 1 && chars[start] == '.') {
                proof {
                    if part == seq!['.'] {
                        assert(part[0] == '.');
                    }
                }
                target = join(target.as_str(), pathname.substring_char(start, at));
            } else {
                proof {
                    if at > start {
                        assert(part =~= seq!['.']);
                    }
                }
            }
            if at == chars.len() {
                assert(pathname@.take(at as int) =~= pathname@);
                return Some(target);
            }
            proof {
                assert(pathname@.take(at + 1).drop_last() =~= pathname@.take(at as int));
                assert(pathname@.subrange(at + 1, at + 1) =~= seq![]);
                done = closed;
            }
            at += 1;
            start = at;
        } else {
            proof {
                assert(pathname@.take(at + 1).drop_last() =~= pathname@.take(at as int));
                assert(done.push(part).drop_last() =~= done);
                assert(part.push(chars[at as int]) =~= pathname@.subrange(start as int, at + 1));
            }
            at += 1;
        }
    }
}

/// A part of a path that a separator or the path's end closes stays as it is.
proof fn lemma_segment_stays(path: Seq<char>, at: int, part: int)
    requires
        0 <= at <= path.len(),
        at < path.len() ==> path[at] == '/',
        0 <= part < segments(path.take(at)).len(),
    ensures
        part < segments(path).len(),
        segments(path)[part] == segments(path.take(at))[part],
    decreases path.len(),
{
    if at == path.len() {
        assert(path.take(at) =~= path);
    } else if at == path.len() - 1 {
        assert(path.drop_last() =~= path.take(at));
    } else {
        let shorter = path.drop_last();
        assert(shorter.take(at) =~= path.take(at));
        lemma_segment_stays(shorter, at, part);
        lemma_closed_parts(path, at);
    }
}

/// Behind a separator there is at least one more part.
proof fn lemma_closed_parts(path: Seq<char>, at: int)
    requires
        0 <= at < path.len(),
        path[at] == '/',
    ensures
        segments(path).len() > segments(path.take(at)).len() >= 1,
    decreases path.len(),
{
    lemma_some_part(path.take(at));
    if at == path.len() - 1 {
        assert(path.drop_last() =~= path.take(at));
    } else {
        assert(path.drop_last().take(at) =~= path.take(at));
        lemma_closed_parts(path.drop_last(), at);
    }
}

pub(crate) proof fn lemma_some_part(path: Seq<char>)
    ensures
        segments(path).len() >= 1,
    decreases path.len(),
{
    if path.len() > 0 {
        lemma_some_part(path.drop_last());
    }
}

/// Whether the client document holds `pathname`.
pub fn is_static_path(pathname: &str) -> (holds: bool)
    ensures
        holds == static_path(pathname@),
{
    same_text(pathname, "/") || same_text(pathname, "/index.html") || starts_with(
        pathname,
        "/assets/",
    ) || same_text(pathname, "/favicon.svg") || same_text(pathname, "/manifest.webmanifest")
}

/// Route one `dsh-app://app` request: static client document or Host
/// forwarding. An empty path is the root.
pub fn handle(path: &str) -> (route: Route)
    ensures
        ({
            let pathname = if path@.len() == 0 {
                "/"@
            } else {
                path@
            };
            match route {
                Route::Static(at) => static_path(pathname) && at@ == pathname,
                Route::Forward(at) => !static_path(pathname) && at@ == pathname,
            }
        }),
{
    let pathname: &str = if path.is_empty() {
        "/"
    } else {
        path
    };
    if is_static_path(pathname) {
        Route::Static(pathname.to_owned())
    } else {
        Route::Forward(pathname.to_owned())
    }
}

/// Start to answer a request for a static path from the document root `dist`.
pub fn serve_static(dist: &str, method: &str, pathname: &str) -> (step: StaticStep)
    ensures
        match step {
            StaticStep::Answer(response) => if method@ != "GET"@ && method@ != "HEAD"@ {
                is_refusal(response, 405)
            } else {
                climbs(asset_path(pathname@)) && is_refusal(response, 403)
            },
            StaticStep::Read(target) => {
                &&& method@ == "GET"@ || method@ == "HEAD"@
                &&& !climbs(asset_path(pathname@))
                &&& target@ == descended(dist@, segments(asset_path(pathname@)))
            },
        },
{
    if !same_text(method, "GET") && !same_text(method, "HEAD") {
        return StaticStep::Answer(refusal(405));
    }
    let relative: &str = if same_text(pathname, "/") {
        "/index.html"
    } else {
        pathname
    };
    match root_relative(dist, relative) {
        Some(target) => StaticStep::Read(target),
        None => StaticStep::Answer(refusal(403)),
    }
}

/// The index with the boot gate behind its first `<head>`.
pub fn gated_index(document: &str) -> (served: String)
    ensures
        served@ == gated(document@),
{
    let mut with: String = "<head>".to_owned();
    with.append(BOOT_SCRIPT);
    replace_first(document, "<head>", with.as_str())
}

/// Answer a request for a static path with what came of reading `target`.
///
/// The media type comes from the resolved file, so the index route `/` still
/// reports an HTML document.
pub fn asset_response(method: &str, pathname: &str, target: &str, read: AssetRead) -> (response:
    DocumentResponse)
    ensures
        match read {
            AssetRead::Bytes(bytes) => is_document(
                response,
                200,
                mime_text(crate::path::extension_of(target@)),
                if method@ == "HEAD"@ {
                    seq![]
                } else if index_path(pathname@) {
                    vstd::utf8::encode_utf8(gated(crate::text::decoded(bytes@)))
                } else {
                    bytes@
                },
            ),
            AssetRead::NotFound => is_refusal(response, 404),
            AssetRead::Failed => is_refusal(response, 500),
        },
{
    let bytes = match read {
        AssetRead::Bytes(bytes) => bytes,
        AssetRead::NotFound => {
            return refusal(404);
        },
        AssetRead::Failed => {
            return refusal(500);
        },
    };
    let body: Vec<u8> = if same_text(method, "HEAD") {
        Vec::new()
    } else if same_text(pathname, "/") || same_text(pathname, "/index.html") {
        gated_index(text_of_bytes(bytes.as_slice()).as_str()).as_bytes_vec()
    } else {
        bytes
    };
    document_response(200, mime_of(target), body)
}

/// Whether `bytes` are the UTF-8 of `text`.
fn is_text(bytes: &Vec<u8>, text: &str) -> (same: bool)
    ensures
        same == (bytes@ == vstd::utf8::encode_utf8(text@)),
{
    let wanted = text.as_bytes();
    if bytes.len() != wanted.len() {
        return false;
    }
    let mut i: usize = 0;
    while i < bytes.len()
        invariant
            i <= bytes.len(),
            bytes.len() == wanted.len(),
            wanted@ == vstd::utf8::encode_utf8(text@),
            forall|k: int| 0 <= k < i ==> bytes@[k] == wanted@[k],
        decreases bytes.len() - i,
    {
        if bytes[i] != wanted[i] {
            assert(bytes@[i as int] != wanted@[i as int]);
            return false;
        }
        i += 1;
    }
    assert(bytes@ =~= wanted@);
    true
}

/// Whether a request names an origin other than the application's.
pub fn has_foreign_origin(headers: &http::HeaderMap<http::HeaderValue>) -> (foreign: bool)
    ensures
        foreign == foreign_origin(*headers),
{
    proof {
        reveal_strlit("origin");
    }
    match first_value(headers, "origin") {
        Some(origin) => !is_text(&origin, APP_ORIGIN),
        None => false,
    }
}

/// `step` is what a request of the page comes to: a foreign origin is refused
/// before all else, and then a request that comes ahead of the Host; the rest
/// is sent.
pub open spec fn forwards(
    connection: Option<(String, String)>,
    method: Seq<char>,
    headers: http::HeaderMap<http::HeaderValue>,
    pathname: Seq<char>,
    query: Option<Seq<char>>,
    body: Seq<u8>,
    step: ForwardStep,
) -> bool {
    if foreign_origin(headers) {
        step matches ForwardStep::Answer(response) && is_refusal(response, 403)
    } else {
        match connection {
            None => step matches ForwardStep::Answer(response) && is_refusal(response, 503),
            Some((origin, cookie)) => match step {
                ForwardStep::Answer(_) => false,
                ForwardStep::Send(request) => {
                    &&& request.method@ == method
                    &&& request.body@ == body
                    &&& request.url@ == host_url(origin@, pathname, query)
                    &&& authenticated(headers, request.headers, cookie@)
                },
                ForwardStep::Overflow => crate::headers::kept_count(
                    headers,
                    STRIPPED_REQUEST_HEADERS@,
                ) > crate::headers::ROOM_FOR_ONE_MORE,
            },
        }
    }
}

/// Start to forward a request to the Host: the page's method, body and fields,
/// with the shell's cookie in the place of the page's own credentials.
pub fn forward(
    connection: &Option<(String, String)>,
    method: &str,
    headers: &http::HeaderMap<http::HeaderValue>,
    pathname: &str,
    query: Option<&str>,
    body: Vec<u8>,
) -> (step: ForwardStep)
    requires
        !foreign_origin(*headers) ==> (connection matches Some((_, cookie))
            ==> crate::headers::field_safe(cookie@)),
    ensures
        forwards(
            *connection,
            method@,
            *headers,
            pathname@,
            match query {
                Some(text) => Some(text@),
                None => None,
            },
            body@,
            step,
        ),
{
    if has_foreign_origin(headers) {
        return ForwardStep::Answer(refusal(403));
    }
    let (host_origin, cookie) = match connection {
        Some((host_origin, cookie)) => (host_origin, cookie),
        None => {
            return ForwardStep::Answer(refusal(503));
        },
    };
    let mut url = host_origin.clone();
    url.append(pathname);
    if let Some(text) = query {
        url.append("?");
        url.append(text);
    }
    let dropped = STRIPPED_REQUEST_HEADERS;
    match copy_except(headers, dropped.as_slice()) {
        Some(copied) => {
            let mut outgoing = copied;
            proof {
                reveal_strlit("cookie");
            }
            if set_field(&mut outgoing, "cookie", cookie.as_str(), true) {
                ForwardStep::Send(
                    HostRequest { method: method.to_owned(), url, headers: outgoing, body },
                )
            } else {
                ForwardStep::Overflow
            }
        },
        None => ForwardStep::Overflow,
    }
}

/// Answer a forwarded request with what came of sending it. `None` where the
/// reply has more header fields than a header map can hold.
pub fn host_response(reply: HostReply) -> (answer: Option<DocumentResponse>)
    ensures
        match reply {
            HostReply::Failed => answer matches Some(response) && is_refusal(response, 502),
            HostReply::Answered { status, headers, body } => {
                &&& crate::headers::kept_count(headers, STRIPPED_RESPONSE_HEADERS@)
                    <= crate::headers::ROOM_FOR_ONE_MORE ==> answer is Some
                &&& answer matches Some(response) ==> {
                    &&& response.status == (if 100 <= status < 1000 {
                        status
                    } else {
                        502
                    })
                    &&& crate::headers::kept_except(
                        headers,
                        response.headers,
                        STRIPPED_RESPONSE_HEADERS@,
                    )
                    &&& response.body@ == (match body {
                        Some(bytes) => bytes@,
                        None => seq![],
                    })
                }
            },
        },
{
    match reply {
        HostReply::Failed => Some(refusal(502)),
        HostReply::Answered { status, headers, body } => {
            let dropped = STRIPPED_RESPONSE_HEADERS;
            match copy_except(&headers, dropped.as_slice()) {
                Some(kept) => {
                    let status: u16 = if 100 <= status && status < 1000 {
                        status
                    } else {
                        502
                    };
                    let body: Vec<u8> = match body {
                        Some(bytes) => bytes,
                        None => Vec::new(),
                    };
                    Some(DocumentResponse { status, headers: kept, body })
                },
                None => None,
            }
        },
    }
}

/// A path followed by a separator and a part without one has that part behind
/// its own.
proof fn lemma_segments_extended(path: Seq<char>, part: Seq<char>)
    requires
        !part.contains('/'),
    ensures
        segments(path.push('/') + part) == segments(path).push(part),
    decreases part.len(),
{
    let whole = path.push('/') + part;
    if part.len() == 0 {
        assert(whole =~= path.push('/'));
        assert(whole.drop_last() =~= path);
        assert(part =~= seq![]);
    } else {
        let shorter = part.drop_last();
        assert(!shorter.contains('/')) by {
            if shorter.contains('/') {
                let k = choose|k: int| 0 <= k < shorter.len() && shorter[k] == '/';
                assert(part[k] == '/');
            }
        }
        lemma_segments_extended(path, shorter);
        assert(part.last() != '/') by {
            if part.last() == '/' {
                assert(part[part.len() - 1] == '/');
            }
        }
        assert(whole.drop_last() =~= path.push('/') + shorter);
        assert(segments(path).push(shorter).drop_last() =~= segments(path));
        assert(shorter.push(part.last()) =~= part);
    }
}

/// A text without a separator is its only part.
pub(crate) proof fn lemma_segments_single(part: Seq<char>)
    requires
        !part.contains('/'),
    ensures
        segments(part) == seq![part],
    decreases part.len(),
{
    if part.len() > 0 {
        let shorter = part.drop_last();
        assert(!shorter.contains('/')) by {
            if shorter.contains('/') {
                let k = choose|k: int| 0 <= k < shorter.len() && shorter[k] == '/';
                assert(part[k] == '/');
            }
        }
        lemma_segments_single(shorter);
        assert(part.last() != '/') by {
            if part.last() == '/' {
                assert(part[part.len() - 1] == '/');
            }
        }
        assert(shorter.push(part.last()) =~= part);
        assert(segments(part) =~= seq![part]);
    } else {
        assert(part =~= seq![]);
    }
}

/// No part of a path holds a separator.
pub(crate) proof fn lemma_parts_plain(path: Seq<char>, part: int)
    requires
        0 <= part < segments(path).len(),
    ensures
        !segments(path)[part].contains('/'),
    decreases path.len(),
{
    if path.len() > 0 {
        let earlier = segments(path.drop_last());
        lemma_some_part(path.drop_last());
        if part < segments(path).len() - 1 {
            lemma_parts_plain(path.drop_last(), part);
        } else if path.last() != '/' {
            lemma_parts_plain(path.drop_last(), earlier.len() - 1);
            let grown = earlier.last().push(path.last());
            if grown.contains('/') {
                let k = choose|k: int| 0 <= k < grown.len() && grown[k] == '/';
                if k < earlier.last().len() {
                    assert(earlier.last()[k] == '/');
                }
            }
        }
    }
}

/// The steps of the fence law, for the first parts of a path.
proof fn lemma_fence(root: Seq<char>, parts: Seq<Seq<char>>)
    requires
        forall|i: int| 0 <= i < parts.len() ==> !(#[trigger] parts[i]).contains('/'),
        !parts.contains(seq!['.', '.']),
    ensures
        ({
            let target = descended(root, parts);
            let below = target.skip(root.len() as int);
            &&& crate::text::begins_with(target, root)
            &&& !climbs(below)
            &&& below.len() > 0 ==> below.last() != '/'
            &&& below.len() == 0 || root.len() == 0 || root.last() == '/' || below[0] == '/'
        }),
    decreases parts.len(),
{
    let target = descended(root, parts);
    let below = target.skip(root.len() as int);
    let climb: Seq<char> = seq!['.', '.'];
    if parts.len() == 0 {
        assert(below =~= seq![]);
        assert(target.take(root.len() as int) =~= root);
        assert(segments(below) =~= seq![seq![]]);
        if climbs(below) {
            let k = choose|k: int| 0 <= k < segments(below).len() && segments(below)[k] == climb;
            assert(segments(below)[k].len() == 0);
        }
    } else {
        let earlier = parts.drop_last();
        let part = parts.last();
        assert(parts[parts.len() - 1] == part);
        assert(part != climb) by {
            if part == climb {
                assert(parts[parts.len() - 1] == climb);
            }
        }
        assert(!earlier.contains(climb)) by {
            if earlier.contains(climb) {
                let k = choose|k: int| 0 <= k < earlier.len() && earlier[k] == climb;
                assert(parts[k] == climb);
            }
        }
        assert forall|i: int| 0 <= i < earlier.len() implies !(#[trigger] earlier[i]).contains(
            '/',
        ) by {
            assert(earlier[i] == parts[i]);
        }
        lemma_fence(root, earlier);
        let upper = descended(root, earlier);
        let above = upper.skip(root.len() as int);
        if !(part.len() == 0 || part == seq!['.']) {
            assert(part[0] != '/') by {
                if part[0] == '/' {
                    assert(part.contains('/'));
                }
            }
            assert(part.last() != '/') by {
                if part.last() == '/' {
                    assert(part[part.len() - 1] == '/');
                }
            }
            assert(target.take(root.len() as int) =~= upper.take(root.len() as int));
            if upper.len() == 0 || upper.last() == '/' {
                assert(above.len() == 0) by {
                    if above.len() > 0 {
                        assert(above.last() == upper.last());
                    }
                }
                assert(below =~= part);
                lemma_segments_single(part);
                if climbs(below) {
                    let k = choose|k: int|
                        0 <= k < segments(below).len() && segments(below)[k] == climb;
                    assert(segments(below)[k] == part);
                }
            } else {
                assert(below =~= above.push('/') + part);
                lemma_segments_extended(above, part);
                if climbs(below) {
                    let k = choose|k: int|
                        0 <= k < segments(below).len() && segments(below)[k] == climb;
                    if k < segments(above).len() {
                        assert(segments(above)[k] == climb);
                    }
                }
            }
        }
    }
}

/// The document root is a fence: whatever path is asked for, a file that is
/// found for it is `root` or stands below it, behind a separator, and no
/// component of its path below `root` climbs to a parent directory.
pub proof fn law_root_is_a_fence(root: Seq<char>, pathname: Seq<char>)
    requires
        !climbs(pathname),
    ensures
        crate::text::begins_with(descended(root, segments(pathname)), root),
        !climbs(descended(root, segments(pathname)).skip(root.len() as int)),
        ({
            let below = descended(root, segments(pathname)).skip(root.len() as int);
            below.len() == 0 || root.len() == 0 || root.last() == '/' || below[0] == '/'
        }),
{
    let parts = segments(pathname);
    assert forall|i: int| 0 <= i < parts.len() implies !(#[trigger] parts[i]).contains('/') by {
        lemma_parts_plain(pathname, i);
    }
    lemma_fence(root, parts);
}

/// The index route is an HTML document, wherever the document root is.
pub proof fn law_index_is_html(dist: Seq<char>)
    ensures
        !climbs(asset_path("/"@)),
        mime_text(
            crate::path::extension_of(descended(dist, segments(asset_path("/"@)))),
        ) == "text/html; charset=utf-8"@,
{
    reveal_strlit("/index.html");
    reveal_strlit("index.html");
    reveal_strlit("html");
    let path = "/index.html"@;
    let name = "index.html"@;
    let empty: Seq<char> = seq![];
    assert(!name.contains('/'));
    assert(path =~= empty.push('/') + name);
    lemma_segments_extended(empty, name);
    let parts = segments(path);
    assert(segments(empty) =~= seq![empty]);
    assert(parts =~= seq![empty, name]);
    if climbs(path) {
        let k = choose|k: int| 0 <= k < parts.len() && parts[k] == seq!['.', '.'];
        assert(parts[k].len() == 2);
    }
    reveal_with_fuel(descended, 3);
    assert(parts.drop_last() =~= seq![empty]);
    assert(seq![empty].drop_last() =~= Seq::<Seq<char>>::empty());
    assert(name.len() == 10);
    let target = descended(dist, parts);
    let front = if dist.len() == 0 || dist.last() == '/' {
        dist
    } else {
        dist.push('/')
    };
    assert(target =~= front + name);
    assert(target.last() == 'l');
    crate::path::lemma_through_last_of(front, name, '/');
    assert(target.skip(front.len() as int) =~= name);
    let stem = name.take(6);
    assert(!"html"@.contains('.'));
    assert(name =~= stem + "html"@);
    crate::path::lemma_through_last_of(stem, "html"@, '.');
    assert(name.skip(6) =~= "html"@);
}

/// The boot gate stands directly behind the first `<head>` of the served
/// index, and nothing else of the document changes.
pub proof fn law_gate_opens_the_head(document: Seq<char>)
    ensures
        match crate::text::first_from(document, "<head>"@, 0) {
            Some(at) => {
                let behind = at + "<head>"@.len();
                let script = BOOT_SCRIPT@.len();
                &&& crate::text::occurs_at(document, "<head>"@, at)
                &&& crate::text::occurs_at(gated(document), BOOT_SCRIPT@, behind)
                &&& gated(document).take(behind) == document.take(behind)
                &&& gated(document).skip(behind + script) == document.skip(behind)
            },
            None => gated(document) == document,
        },
{
    if let Some(at) = crate::text::first_from(document, "<head>"@, 0) {
        crate::text::lemma_first_occurs(document, "<head>"@, 0);
        let head = "<head>"@;
        let served = gated(document);
        let behind = at + head.len();
        assert(served.subrange(behind, behind + BOOT_SCRIPT@.len()) =~= BOOT_SCRIPT@);
        assert(served.take(behind) =~= document.take(behind)) by {
            assert forall|i: int| 0 <= i < behind implies #[trigger] served[i] == document[i] by {
                if i >= at {
                    assert(document.subrange(at, behind)[i - at] == head[i - at]);
                }
            }
        }
        assert(served.skip(behind + BOOT_SCRIPT@.len()) =~= document.skip(behind));
    }
}

/// The credentials of the page stop at the shell: whatever fields the page
/// sends, the Host gets the shell's cookie as the only one and no origin, site
/// or encoding of the page's choice.
pub proof fn law_page_credentials_stop(
    page: http::HeaderMap<http::HeaderValue>,
    outgoing: http::HeaderMap<http::HeaderValue>,
    cookie: Seq<char>,
)
    requires
        authenticated(page, outgoing, cookie),
    ensures
        crate::headers::header_values(outgoing, "cookie"@) == seq![
            (vstd::utf8::encode_utf8(cookie), true),
        ],
        crate::headers::header_values(outgoing, "host"@).len() == 0,
        crate::headers::header_values(outgoing, "origin"@).len() == 0,
        crate::headers::header_values(outgoing, "sec-fetch-site"@).len() == 0,
        crate::headers::header_values(outgoing, "accept-encoding"@).len() == 0,
{
    reveal_strlit("host");
    reveal_strlit("origin");
    reveal_strlit("cookie");
    reveal_strlit("sec-fetch-site");
    reveal_strlit("accept-encoding");
    let names = STRIPPED_REQUEST_HEADERS@;
    assert(names[0]@ == "host"@);
    assert(names[1]@ == "origin"@);
    assert(names[3]@ == "sec-fetch-site"@);
    assert(names[4]@ == "accept-encoding"@);
    assert("host"@.len() != "cookie"@.len());
    assert("origin"@[0] != "cookie"@[0]);
    assert("sec-fetch-site"@.len() != "cookie"@.len());
    assert("accept-encoding"@.len() != "cookie"@.len());
}

/// The cookies of the Host stop at the shell: no answer to the page sets one,
/// and none carries a length or an encoding of the forwarding hop.
pub proof fn law_host_cookies_stop(
    host: http::HeaderMap<http::HeaderValue>,
    answer: http::HeaderMap<http::HeaderValue>,
)
    requires
        crate::headers::kept_except(host, answer, STRIPPED_RESPONSE_HEADERS@),
    ensures
        crate::headers::header_values(answer, "set-cookie"@).len() == 0,
        crate::headers::header_values(answer, "content-length"@).len() == 0,
        crate::headers::header_values(answer, "content-encoding"@).len() == 0,
{
    let names = STRIPPED_RESPONSE_HEADERS@;
    assert(names[0]@ == "content-encoding"@);
    assert(names[1]@ == "content-length"@);
    assert(names[2]@ == "set-cookie"@);
}

/// Nothing that the page puts in the replaced fields reaches the Host: requests
/// that differ only in them, with the same origin, are answered alike or sent
/// alike, with the same method, URL, body and values of every field, the
/// shell's cookie as the only one and no origin. Whether they are sent does not
/// depend on those fields either, up to the number of other fields that a map
/// always takes.
pub proof fn law_replaced_fields_do_not_matter(
    connection: Option<(String, String)>,
    method: Seq<char>,
    pathname: Seq<char>,
    query: Option<Seq<char>>,
    body: Seq<u8>,
    one: (http::HeaderMap<http::HeaderValue>, ForwardStep),
    other: (http::HeaderMap<http::HeaderValue>, ForwardStep),
)
    requires
        crate::headers::alike_except(one.0, other.0, STRIPPED_REQUEST_HEADERS@),
        crate::headers::header_values(one.0, "origin"@) == crate::headers::header_values(
            other.0,
            "origin"@,
        ),
        forwards(connection, method, one.0, pathname, query, body, one.1),
        forwards(connection, method, other.0, pathname, query, body, other.1),
    ensures
        match (one.1, other.1) {
            (ForwardStep::Send(first), ForwardStep::Send(second)) => {
                &&& connection matches Some((_, cookie))
                &&& first.method@ == second.method@
                &&& first.url@ == second.url@
                &&& first.body@ == second.body@
                &&& forall|name: Seq<char>| #[trigger]
                    crate::headers::header_values(first.headers, name)
                        == crate::headers::header_values(second.headers, name)
                &&& crate::headers::header_values(first.headers, "cookie"@) == seq![
                    (vstd::utf8::encode_utf8(cookie@), true),
                ]
                &&& crate::headers::header_values(first.headers, "origin"@).len() == 0
            },
            (ForwardStep::Answer(first), ForwardStep::Answer(second)) => {
                &&& first.status == second.status
                &&& first.body@ == second.body@
                &&& forall|name: Seq<char>| #[trigger]
                    crate::headers::header_values(first.headers, name)
                        == crate::headers::header_values(second.headers, name)
            },
            (first, second) => {
                &&& first !is Answer
                &&& second !is Answer
                &&& crate::headers::kept_count(one.0, STRIPPED_REQUEST_HEADERS@)
                    > crate::headers::ROOM_FOR_ONE_MORE
                &&& crate::headers::kept_count(other.0, STRIPPED_REQUEST_HEADERS@)
                    > crate::headers::ROOM_FOR_ONE_MORE
            },
        },
{
    let dropped = STRIPPED_REQUEST_HEADERS@;
    crate::headers::lemma_alike_count(one.0, other.0, dropped);
    assert(foreign_origin(one.0) == foreign_origin(other.0));
    if let (ForwardStep::Send(first), ForwardStep::Send(second)) = (one.1, other.1) {
        if let Some((origin, cookie)) = connection {
            law_page_credentials_stop(one.0, first.headers, cookie@);
            assert forall|name: Seq<char>| #[trigger]
                crate::headers::header_values(first.headers, name) == crate::headers::header_values(
                    second.headers,
                    name,
                ) by {
                if !crate::headers::named_in(dropped, name) {
                    assert(crate::headers::header_values(one.0, name)
                        == crate::headers::header_values(other.0, name));
                }
            }
        }
    }
}

/// A foreign origin gets an empty refusal whatever else the request and the
/// startup are, and nothing is sent to the Host.
pub proof fn law_foreign_origins_are_refused(
    connection: Option<(String, String)>,
    method: Seq<char>,
    headers: http::HeaderMap<http::HeaderValue>,
    pathname: Seq<char>,
    query: Option<Seq<char>>,
    body: Seq<u8>,
    step: ForwardStep,
)
    requires
        foreign_origin(headers),
        forwards(connection, method, headers, pathname, query, body, step),
    ensures
        step matches ForwardStep::Answer(response) && response.status == 403 && response.body@.len()
            == 0,
{
}

} // verus!
