//! Loopback WebSocket bridge for the remote stream mux.
//!
//! WKWebView custom protocols cannot intercept WebSocket upgrades, and the
//! page cannot attach the Host cookie or rewrite its own Origin, so the shell
//! owns a loopback listener that relays mux frames while injecting the
//! Host-trusted Origin and cookie.
//!
//! Sockets are the caller's. The functions here decide which page may come
//! in, what is asked of the Host, and how a relay ends.

use vstd::prelude::*;

use crate::headers::{first_value, is_field_safe, no_fields, set_field, visible_text};
use crate::shell::APP_ORIGIN;
use crate::text::{decimal, replace_first, same_text, strip_prefixes};

verus! {

/// The stream path of a request that names none.
pub const DEFAULT_STREAM_PATH: &'static str = "/api/remote.mux";

/// What a rejected page is told.
pub const ORIGIN_REJECTED: &'static str = "origin rejected";

/// Admits only WebSocket upgrades of one origin.
pub struct OriginGate {
    pub expected: String,
}

/// An answer that refuses an upgrade.
pub struct Rejection {
    pub status: u16,
    pub body: String,
}

/// What an HTTP request holds.
pub struct RequestView {
    pub method: Seq<char>,
    /// The target, as `http::Uri` writes it.
    pub uri: Seq<char>,
    /// The header fields, in the order of the header map.
    pub fields: Seq<(Seq<char>, Seq<u8>, bool)>,
}

#[verifier::external_type_specification]
#[verifier::external_body]
#[verifier::reject_recursive_types(T)]
pub struct ExRequest<T>(http::Request<T>);

/// What an `http::Request` without a body holds.
pub uninterp spec fn request_view(request: http::Request<()>) -> RequestView;

/// What `http::Uri` reads from a text, as it writes it, or the message of its
/// error.
pub uninterp spec fn uri_read(text: Seq<char>) -> Result<Seq<char>, Seq<char>>;

/// Whether a request comes from the page at `expected`: its first `origin`
/// can be read and is that.
pub open spec fn admitted(
    headers: http::HeaderMap<http::HeaderValue>,
    expected: Seq<char>,
) -> bool {
    let origins = crate::headers::header_values(headers, "origin"@);
    origins.len() > 0 && crate::headers::all_visible(origins[0].0) && crate::headers::byte_text(
        origins[0].0,
    ) == expected
}

/// The stream path, where a request names one.
pub open spec fn stream_path(path_and_query: Option<Seq<char>>) -> Seq<char> {
    match path_and_query {
        Some(path) => path,
        None => DEFAULT_STREAM_PATH@,
    }
}

/// The Host URL of a stream: the Host origin over the `ws` scheme.
pub open spec fn stream_url(origin: Seq<char>, path: Seq<char>) -> Seq<char> {
    crate::text::replaced_first(origin + path, "http://"@, "ws://"@)
}

/// The authority of the Host origin.
pub open spec fn host_of(origin: Seq<char>) -> Seq<char> {
    crate::text::without_prefix(origin, "http://"@)
}

/// Whether the texts of an upgrade request can stand as field values.
pub open spec fn upgrade_safe(origin: Seq<char>, cookie: Seq<char>, key: Seq<char>) -> bool {
    &&& crate::headers::field_safe(host_of(origin))
    &&& crate::headers::field_safe(key)
    &&& crate::headers::field_safe(origin)
    &&& crate::headers::field_safe(cookie)
}

/// The value that an upgrade request has for a field name.
pub open spec fn upgrade_value(
    origin: Seq<char>,
    cookie: Seq<char>,
    key: Seq<char>,
    name: Seq<char>,
) -> Option<Seq<char>> {
    if name == "host"@ {
        Some(host_of(origin))
    } else if name == "connection"@ {
        Some("Upgrade"@)
    } else if name == "upgrade"@ {
        Some("websocket"@)
    } else if name == "sec-websocket-version"@ {
        Some("13"@)
    } else if name == "sec-websocket-key"@ {
        Some(key)
    } else if name == "origin"@ {
        Some(origin)
    } else if name == "cookie"@ {
        Some(cookie)
    } else {
        None
    }
}

/// `fields` are the fields of an upgrade request, and no others.
pub open spec fn upgrades(
    fields: Seq<(Seq<char>, Seq<u8>, bool)>,
    origin: Seq<char>,
    cookie: Seq<char>,
    key: Seq<char>,
) -> bool {
    forall|name: Seq<char>| #[trigger]
        crate::headers::values_of(fields, name) == (match upgrade_value(origin, cookie, key, name) {
            Some(value) => seq![(vstd::utf8::encode_utf8(value), false)],
            None => seq![],
        })
}

/// `answer` is what a page stream comes to with this handshake key: the
/// request to the Host, or why there is none.
pub open spec fn serves(
    connection: Option<(String, String)>,
    path: Option<Seq<char>>,
    key: Seq<char>,
    answer: Result<http::Request<()>, String>,
) -> bool {
    match connection {
        None => answer matches Err(message) && message@ == "stream bridge: Host is not ready"@,
        Some((origin, cookie)) => match uri_read(stream_url(origin@, stream_path(path))) {
            Err(reason) => answer matches Err(message) && message@
                == "building host stream request: "@ + reason,
            Ok(uri) => if upgrade_safe(origin@, cookie@, key) {
                answer matches Ok(request) && {
                    &&& request_view(request).method == "GET"@
                    &&& request_view(request).uri == uri
                    &&& upgrades(request_view(request).fields, origin@, cookie@, key)
                }
            } else {
                answer matches Err(message) && message@
                    == "building host stream request: failed to parse header value"@
            },
        },
    }
}

/// A letter of the base64 alphabet.
pub open spec fn base64_letter(c: char) -> bool {
    'A' <= c <= 'Z' || 'a' <= c <= 'z' || '0' <= c <= '9' || c == '+' || c == '/'
}

/// A WebSocket handshake key: sixteen bytes in base64.
pub open spec fn handshake_key(key: Seq<char>) -> bool {
    &&& key.len() == 24
    &&& forall|i: int| 0 <= i < 22 ==> base64_letter(#[trigger] key[i])
    &&& key[22] == '='
    &&& key[23] == '='
}

/// A fresh handshake key, from
/// `tungstenite::handshake::client::generate_key`.
///
/// Trusted of it: whatever key comes is the base64 form of sixteen bytes.
/// The bytes are random, so nothing is said of which they are.
#[verifier::external_body]
fn generate_key() -> (key: String)
    ensures
        handshake_key(key@),
{
    tokio_tungstenite::tungstenite::handshake::client::generate_key()
}

/// A `GET` request for `url` with these header fields, from
/// `http::request::Builder`, or the text of its error.
///
/// Trusted of it: whether the target is read, and as what, is a function of
/// its text; the request is a `GET` with exactly these fields.
#[verifier::external_body]
fn get_request(url: &str, headers: http::HeaderMap<http::HeaderValue>) -> (built: Result<
    http::Request<()>,
    String,
>)
    ensures
        match built {
            Ok(request) => {
                &&& uri_read(url@) == Ok::<Seq<char>, Seq<char>>(request_view(request).uri)
                &&& request_view(request).method == "GET"@
                &&& request_view(request).fields == crate::headers::header_fields(headers)
            },
            Err(message) => uri_read(url@) == Err::<Seq<char>, Seq<char>>(message@),
        },
{
    match http::Request::builder().uri(url).body(()) {
        Ok(mut request) => {
            *request.headers_mut() = headers;
            Ok(request)
        },
        Err(error) => Err(error.to_string()),
    }
}

impl OriginGate {
    /// Admits the application document and nothing else.
    pub fn for_application() -> (gate: Self)
        ensures
            gate.expected@ == crate::shell::APP_ORIGIN@,
    {
        OriginGate { expected: APP_ORIGIN.to_owned() }
    }

    /// Decide on the upgrade request of a page: the stream path that it asks
    /// for, or a rejection.
    pub fn on_request(
        &self,
        headers: &http::HeaderMap<http::HeaderValue>,
        path_and_query: Option<&str>,
    ) -> (decision: Result<String, Rejection>)
        ensures
            match decision {
                Ok(path) => admitted(*headers, self.expected@) && path@ == stream_path(
                    match path_and_query {
                        Some(text) => Some(text@),
                        None => None,
                    },
                ),
                Err(rejection) => !admitted(*headers, self.expected@) && rejection.status == 403
                    && rejection.body@ == ORIGIN_REJECTED@,
            },
    {
        proof {
            reveal_strlit("origin");
        }
        let known: bool = match first_value(headers, "origin") {
            Some(value) => match visible_text(&value) {
                Some(origin) => same_text(origin.as_str(), self.expected.as_str()),
                None => false,
            },
            None => false,
        };
        if !known {
            return Err(Rejection { status: 403, body: ORIGIN_REJECTED.to_owned() });
        }
        match path_and_query {
            Some(path) => Ok(path.to_owned()),
            None => Ok(DEFAULT_STREAM_PATH.to_owned()),
        }
    }
}

/// The origin of a bridge that is bound to a loopback port.
pub fn bridge_origin(port: u16) -> (origin: String)
    ensures
        origin@ == "http://127.0.0.1:"@ + crate::text::decimal_text(port as nat),
{
    let mut origin: String = "http://127.0.0.1:".to_owned();
    origin.append(decimal(port).as_str());
    origin
}

/// The Host URL of a stream. The Host origin is plain http loopback, and a
/// stream connects over the `ws` scheme.
pub fn host_stream_url(origin: &str, path: &str) -> (url: String)
    ensures
        url@ == stream_url(origin@, path@),
{
    let mut whole = origin.to_owned();
    whole.append(path);
    replace_first(whole.as_str(), "http://", "ws://")
}

/// The header fields that ask the Host for a stream, with the Host-trusted
/// origin and cookie. `None` where a text cannot stand as a field value.
pub fn upgrade_fields(origin: &str, cookie: &str, key: &str) -> (fields: Option<
    http::HeaderMap<http::HeaderValue>,
>)
    ensures
        fields is Some <==> upgrade_safe(origin@, cookie@, key@),
        fields matches Some(headers) ==> upgrades(
            crate::headers::header_fields(headers),
            origin@,
            cookie@,
            key@,
        ),
{
    let host = strip_prefixes(origin, "http://");
    if !(is_field_safe(host.as_str()) && is_field_safe(key) && is_field_safe(origin)
        && is_field_safe(cookie)) {
        return None;
    }
    proof {
        reveal_strlit("host");
        reveal_strlit("connection");
        reveal_strlit("upgrade");
        reveal_strlit("sec-websocket-version");
        reveal_strlit("sec-websocket-key");
        reveal_strlit("origin");
        reveal_strlit("cookie");
        reveal_strlit("Upgrade");
        reveal_strlit("websocket");
        reveal_strlit("13");
        crate::headers::lemma_printable_safe("Upgrade"@);
        crate::headers::lemma_printable_safe("websocket"@);
        crate::headers::lemma_printable_safe("13"@);
    }
    let mut headers = no_fields();
    let _done: bool = set_field(&mut headers, "host", host.as_str(), false);
    let _done: bool = set_field(&mut headers, "connection", "Upgrade", false);
    let _done: bool = set_field(&mut headers, "upgrade", "websocket", false);
    let _done: bool = set_field(&mut headers, "sec-websocket-version", "13", false);
    let _done: bool = set_field(&mut headers, "sec-websocket-key", key, false);
    let _done: bool = set_field(&mut headers, "origin", origin, false);
    let _done: bool = set_field(&mut headers, "cookie", cookie, false);
    assert forall|name: Seq<char>| #[trigger]
        crate::headers::values_of(crate::headers::header_fields(headers), name) == (
        match upgrade_value(origin@, cookie@, key@, name) {
            Some(value) => seq![(vstd::utf8::encode_utf8(value), false)],
            None => seq![],
        }) by {
        assert(crate::headers::header_values(headers, name) == crate::headers::values_of(
            crate::headers::header_fields(headers),
            name,
        ));
        assert("host"@.len() == 4 && "connection"@.len() == 10 && "upgrade"@.len() == 7
            && "sec-websocket-version"@.len() == 21 && "sec-websocket-key"@.len() == 17
            && "origin"@.len() == 6 && "cookie"@.len() == 6 && "origin"@[0] != "cookie"@[0]);
    }
    Some(headers)
}

/// The answer for a built request: `safe` tells whether the texts of its
/// fields can stand as field values. A target that is not read counts ahead of
/// a field.
pub fn stream_answer(built: Result<http::Request<()>, String>, safe: bool) -> (answer: Result<
    http::Request<()>,
    String,
>)
    ensures
        match built {
            Ok(request) => if safe {
                answer == Ok::<http::Request<()>, String>(request)
            } else {
                answer matches Err(message) && message@
                    == "building host stream request: failed to parse header value"@
            },
            Err(reason) => answer matches Err(message) && message@
                == "building host stream request: "@ + reason@,
        },
{
    match built {
        Ok(request) => {
            if safe {
                Ok(request)
            } else {
                Err("building host stream request: failed to parse header value".to_owned())
            }
        },
        Err(reason) => {
            let mut message: String = "building host stream request: ".to_owned();
            message.append(reason.as_str());
            Err(message)
        },
    }
}

/// The request to the Host for a page stream with this handshake key.
pub fn stream_request(
    connection: &Option<(String, String)>,
    path: Option<&str>,
    key: &str,
) -> (answer: Result<http::Request<()>, String>)
    ensures
        serves(
            *connection,
            match path {
                Some(text) => Some(text@),
                None => None,
            },
            key@,
            answer,
        ),
{
    let (origin, cookie) = match connection {
        Some((origin, cookie)) => (origin, cookie),
        None => {
            return Err("stream bridge: Host is not ready".to_owned());
        },
    };
    let path: &str = match path {
        Some(path) => path,
        None => DEFAULT_STREAM_PATH,
    };
    let url = host_stream_url(origin.as_str(), path);
    let (headers, safe) = match upgrade_fields(origin.as_str(), cookie.as_str(), key) {
        Some(headers) => (headers, true),
        None => (no_fields(), false),
    };
    stream_answer(get_request(url.as_str(), headers), safe)
}

/// The request to the Host for a page stream, with a fresh handshake key.
pub fn serve_connection(connection: &Option<(String, String)>, path: Option<&str>) -> (answer:
    Result<http::Request<()>, String>)
    ensures
        exists|key: Seq<char>|
            #![trigger handshake_key(key)]
            handshake_key(key) && serves(
                *connection,
                match path {
                    Some(text) => Some(text@),
                    None => None,
                },
                key,
                answer,
            ),
{
    let key = generate_key();
    stream_request(connection, path, key.as_str())
}

/// A side of a relay.
#[derive(Clone, Copy, Debug, PartialEq, Eq, Structural)]
pub enum Side {
    Page,
    Host,
}

/// The side that the messages of a side go to.
pub open spec fn opposite(side: Side) -> Side {
    match side {
        Side::Page => Side::Host,
        Side::Host => Side::Page,
    }
}

/// What happened in a relay of messages `M`.
pub enum RelayEvent<M> {
    /// A message of this side arrived.
    Message { from: Side, message: M },
    /// A message of this side was handed on.
    Sent { from: Side },
    /// Reading this side failed.
    ReadFailed { from: Side, reason: String },
    /// Handing on a message of this side failed.
    SendFailed { from: Side, reason: String },
    /// This side closed: it has no more messages.
    Ended { from: Side },
}

/// What a relay needs next.
pub enum RelayStep<M> {
    /// This message sent to this side.
    HandOn { to: Side, message: M },
    /// The next message of this side.
    Read { from: Side },
    /// The end of both directions. Where `close` names a side, that side is
    /// sent a close message first, whatever comes of it.
    Over { close: Option<Side> },
}

/// How far a relay is: its outcome, once it is over.
pub struct RelayState {
    pub outcome: Option<Result<(), String>>,
}

/// The outcome with which an event ends a relay, where it does.
pub open spec fn ending<M>(event: RelayEvent<M>) -> Option<Result<(), String>> {
    match event {
        RelayEvent::Ended { .. } => Some(Ok(())),
        RelayEvent::ReadFailed { reason, .. } => Some(Err(reason)),
        RelayEvent::SendFailed { reason, .. } => Some(Err(reason)),
        _ => None,
    }
}

/// The outcome of a relay and its next step behind an event. Messages are
/// relayed in both directions until the first side closes or fails; that is the
/// end of the relay.
pub open spec fn relayed<M>(outcome: Option<Result<(), String>>, event: RelayEvent<M>) -> (
    Option<Result<(), String>>,
    RelayStep<M>,
) {
    if outcome is Some {
        (outcome, RelayStep::Over { close: None })
    } else {
        (
            ending(event),
            match event {
                RelayEvent::Message { from, message } => RelayStep::HandOn {
                    to: opposite(from),
                    message,
                },
                RelayEvent::Sent { from } => RelayStep::Read { from },
                RelayEvent::Ended { from } => RelayStep::Over { close: Some(opposite(from)) },
                _ => RelayStep::Over { close: None },
            },
        )
    }
}

impl Side {
    /// The side that the messages of this side go to.
    pub fn other(self) -> (other: Side)
        ensures
            other == opposite(self),
    {
        match self {
            Side::Page => Side::Host,
            Side::Host => Side::Page,
        }
    }
}

impl RelayState {
    /// A relay that runs.
    pub fn new() -> (state: Self)
        ensures
            state.outcome is None,
    {
        RelayState { outcome: None }
    }
}

/// The next step of a relay.
pub fn relay<M>(state: &mut RelayState, event: RelayEvent<M>) -> (step: RelayStep<M>)
    ensures
        (final(state).outcome, step) == relayed(old(state).outcome, event),
{
    if state.outcome.is_some() {
        return RelayStep::Over { close: None };
    }
    match event {
        RelayEvent::Message { from, message } => RelayStep::HandOn { to: from.other(), message },
        RelayEvent::Sent { from } => RelayStep::Read { from },
        RelayEvent::ReadFailed { reason, .. } => {
            state.outcome = Some(Err(reason));
            RelayStep::Over { close: None }
        },
        RelayEvent::SendFailed { reason, .. } => {
            state.outcome = Some(Err(reason));
            RelayStep::Over { close: None }
        },
        RelayEvent::Ended { from } => {
            state.outcome = Some(Ok(()));
            RelayStep::Over { close: Some(from.other()) }
        },
    }
}

/// The outcome of a relay behind these events.
pub open spec fn outcome_after<M>(events: Seq<RelayEvent<M>>) -> Option<Result<(), String>>
    decreases events.len(),
{
    if events.len() == 0 {
        None
    } else {
        relayed(outcome_after(events.drop_last()), events.last()).0
    }
}

/// A relay runs until either side closes or fails, and no longer: up to that
/// event it is not over, from then on its outcome is that event's, and whatever
/// else happens on the other side is answered with the end.
pub proof fn law_relay_ends_with_either_side<M>(
    events: Seq<RelayEvent<M>>,
    at: int,
    later: RelayEvent<M>,
)
    requires
        0 <= at < events.len(),
        ending(events[at]) is Some,
        forall|i: int| 0 <= i < at ==> ending(#[trigger] events[i]) is None,
    ensures
        outcome_after(events.take(at)) is None,
        outcome_after(events) == ending(events[at]),
        relayed(outcome_after(events), later).1 == (RelayStep::<M>::Over { close: None }),
    decreases events.len(),
{
    let shorter = events.drop_last();
    if at < shorter.len() {
        law_relay_ends_with_either_side(shorter, at, later);
        assert(shorter.take(at) =~= events.take(at));
    } else {
        assert(events.take(at) =~= shorter);
        lemma_running(shorter);
    }
}

/// Events that do not end a relay leave it running.
proof fn lemma_running<M>(events: Seq<RelayEvent<M>>)
    requires
        forall|i: int| 0 <= i < events.len() ==> ending(#[trigger] events[i]) is None,
    ensures
        outcome_after(events) is None,
    decreases events.len(),
{
    if events.len() > 0 {
        let shorter = events.drop_last();
        assert forall|i: int| 0 <= i < shorter.len() implies ending(#[trigger] shorter[i]) is None by {
            assert(shorter[i] == events[i]);
        }
        lemma_running(shorter);
        assert(ending(events[events.len() - 1]) is None);
    }
}

/// While a relay runs, every message goes to the other side unchanged, and a
/// side that closes has the other one closed.
pub proof fn law_messages_cross_unchanged<M>(from: Side, message: M)
    ensures
        relayed(None, RelayEvent::Message { from, message }) == (
            None::<Result<(), String>>,
            RelayStep::HandOn { to: opposite(from), message },
        ),
        relayed(None, RelayEvent::<M>::Ended { from }) == (
            Some(Ok::<(), String>(())),
            RelayStep::<M>::Over { close: Some(opposite(from)) },
        ),
        opposite(from) != from,
        opposite(opposite(from)) == from,
{
}

/// A stream goes to the Host's own authority: for a Host at a plain http
/// origin, the stream URL is that authority and the asked path over `ws`, and
/// the host field is that authority.
pub proof fn law_stream_stays_at_the_host(authority: Seq<char>, path: Seq<char>)
    requires
        !crate::text::begins_with(authority, "http://"@),
    ensures
        stream_url("http://"@ + authority, path) == "ws://"@ + authority + path,
        host_of("http://"@ + authority) == authority,
{
    reveal_strlit("http://");
    let scheme = "http://"@;
    let origin = scheme + authority;
    let whole = origin + path;
    assert(whole.subrange(0, scheme.len() as int) =~= scheme);
    assert(crate::text::occurs_at(whole, scheme, 0));
    assert(whole.take(0) + "ws://"@ + whole.skip(scheme.len() as int) =~= "ws://"@ + authority + path);
    assert(origin.take(scheme.len() as int) =~= scheme);
    assert(origin.skip(scheme.len() as int) =~= authority);
    reveal_with_fuel(crate::text::without_prefix, 2);
}

/// Every handshake key can stand as a field value, so it never makes an
/// upgrade request fail.
pub proof fn law_keys_are_safe(key: Seq<char>)
    requires
        handshake_key(key),
    ensures
        crate::headers::field_safe(key),
{
    assert forall|i: int| 0 <= i < key.len() implies ' ' <= #[trigger] key[i] <= '~' by {
        if i < 22 {
            assert(base64_letter(key[i]));
        }
    }
    crate::headers::lemma_printable_safe(key);
}

} // verus!
