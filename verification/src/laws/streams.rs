//! Laws of the stream bridge.

use vstd::prelude::*;

use crate::text::{decimal, replace_first, strip_prefixes};
use crate::ws_bridge::{
    bridge_origin, host_stream_url, relay, serve_connection, stream_answer, stream_request,
    upgrade_fields, OriginGate, Rejection, RelayEvent, RelayState, RelayStep, Side,
};

verus! {

/// A page is let in where its first origin is, character for character, the
/// expected one; its path is kept whole, and a request without one gets the mux.
pub proof fn law_only_the_expected_origin_is_let_in(
    door: &OriginGate,
    headers: &http::HeaderMap<http::HeaderValue>,
    path_and_query: Option<&str>,
    decision: Result<String, Rejection>,
)
    requires
        call_ensures(OriginGate::on_request, (door, headers, path_and_query), decision),
    ensures
        ({
            let origins = crate::headers::header_values(*headers, "origin"@);
            let known = origins.len() > 0 && origins[0].0.len() == door.expected@.len() && forall|
                i: int,
            |
                0 <= i < origins[0].0.len() ==> (32 <= #[trigger] origins[0].0[i] < 127
                    || origins[0].0[i] == 9) && origins[0].0[i] as char == door.expected@[i];
            &&& known && path_and_query is Some ==> (decision matches Ok(path) && path@
                == path_and_query->0@)
            &&& known && path_and_query is None ==> (decision matches Ok(path) && path@
                == "/api/remote.mux"@)
            &&& !known ==> (decision matches Err(rejection) && rejection.status == 403
                && rejection.body@ == "origin rejected"@)
        }),
{
    let origins = crate::headers::header_values(*headers, "origin"@);
    if origins.len() > 0 {
        let bytes = origins[0].0;
        let known = bytes.len() == door.expected@.len() && forall|i: int|
            0 <= i < bytes.len() ==> (32 <= #[trigger] bytes[i] < 127 || bytes[i] == 9)
                && bytes[i] as char == door.expected@[i];
        if known {
            assert forall|i: int| 0 <= i < bytes.len() implies crate::headers::visible_byte(
                #[trigger] bytes[i],
            ) by {}
            assert(crate::headers::byte_text(bytes) =~= door.expected@);
        } else if crate::headers::all_visible(bytes) && crate::headers::byte_text(bytes)
            == door.expected@ {
            assert forall|i: int| 0 <= i < bytes.len() implies (32 <= #[trigger] bytes[i] < 127
                || bytes[i] == 9) && bytes[i] as char == door.expected@[i] by {
                assert(crate::headers::visible_byte(bytes[i]));
                assert(crate::headers::byte_text(bytes)[i] == bytes[i] as char);
            }
        }
    }
}

/// The application is the page that is expected.
pub proof fn law_the_application_is_expected(door: OriginGate)
    requires
        call_ensures(OriginGate::for_application, (), door),
    ensures
        door.expected@ == "dsh-app://app"@,
{
}

/// A bridge is at the loopback, at the whole number of its port.
pub proof fn law_bridges_are_at_the_loopback(port: u16, digits: String, origin: String)
    requires
        call_ensures(bridge_origin, (port,), origin),
        call_ensures(decimal, (port,), digits),
    ensures
        origin@ == "http://127.0.0.1:"@ + digits@,
{
}

proof fn lemma_stream_url(authority: Seq<char>, path: Seq<char>)
    ensures
        crate::ws_bridge::stream_url("http://"@ + authority, path) == "ws://"@ + authority + path,
{
    reveal_strlit("http://");
    let scheme = "http://"@;
    let whole = scheme + authority + path;
    assert(whole.skip(0).take(7) =~= scheme);
    crate::laws::text::lemma_found_at(whole, scheme, 0, 0);
    assert(whole.take(0) + "ws://"@ + whole.skip(7) =~= "ws://"@ + authority + path);
}

/// A stream goes to the whole authority of the Host and to the whole path that
/// was asked for.
pub proof fn law_stream_urls_are_whole(
    origin: &str,
    path: &str,
    authority: Seq<char>,
    url: String,
)
    requires
        call_ensures(host_stream_url, (origin, path), url),
        origin@ == "http://"@ + authority,
    ensures
        url@ == "ws://"@ + authority + path@,
{
    lemma_stream_url(authority, path@);
}

/// The bytes of a text hold no control character but tabs.
pub open spec fn no_control(text: Seq<char>) -> bool {
    forall|i: int|
        0 <= i < vstd::utf8::encode_utf8(text).len() ==> {
            let byte = #[trigger] vstd::utf8::encode_utf8(text)[i];
            byte == 9 || (byte >= 32 && byte != 127)
        }
}

proof fn lemma_no_control(text: Seq<char>)
    ensures
        no_control(text) <==> crate::headers::field_safe(text),
{
    if crate::headers::field_safe(text) {
        assert forall|i: int| 0 <= i < vstd::utf8::encode_utf8(text).len() implies {
            let byte = #[trigger] vstd::utf8::encode_utf8(text)[i];
            byte == 9 || (byte >= 32 && byte != 127)
        } by {
            assert(crate::headers::value_byte(vstd::utf8::encode_utf8(text)[i]));
        }
    }
}

/// `values` tells the one value of each of the seven fields of an upgrade, and
/// none for any other name.
pub open spec fn seven_fields(
    fields: Seq<(Seq<char>, Seq<u8>, bool)>,
    host: Seq<char>,
    origin: Seq<char>,
    cookie: Seq<char>,
    key: Seq<char>,
) -> bool {
    &&& crate::headers::values_of(fields, "host"@) == seq![(vstd::utf8::encode_utf8(host), false)]
    &&& crate::headers::values_of(fields, "connection"@) == seq![
        (vstd::utf8::encode_utf8("Upgrade"@), false),
    ]
    &&& crate::headers::values_of(fields, "upgrade"@) == seq![
        (vstd::utf8::encode_utf8("websocket"@), false),
    ]
    &&& crate::headers::values_of(fields, "sec-websocket-version"@) == seq![
        (vstd::utf8::encode_utf8("13"@), false),
    ]
    &&& crate::headers::values_of(fields, "sec-websocket-key"@) == seq![
        (vstd::utf8::encode_utf8(key), false),
    ]
    &&& crate::headers::values_of(fields, "origin"@) == seq![
        (vstd::utf8::encode_utf8(origin), false),
    ]
    &&& crate::headers::values_of(fields, "cookie"@) == seq![
        (vstd::utf8::encode_utf8(cookie), false),
    ]
    &&& forall|name: Seq<char>|
        name != "host"@ && name != "connection"@ && name != "upgrade"@ && name
            != "sec-websocket-version"@ && name != "sec-websocket-key"@ && name != "origin"@ && name
            != "cookie"@ ==> #[trigger] crate::headers::values_of(fields, name).len() == 0
}

proof fn lemma_seven(
    fields: Seq<(Seq<char>, Seq<u8>, bool)>,
    authority: Seq<char>,
    cookie: Seq<char>,
    key: Seq<char>,
)
    requires
        crate::ws_bridge::upgrades(fields, "http://"@ + authority, cookie, key),
        authority.len() < 7 || authority.take(7) != "http://"@,
    ensures
        seven_fields(fields, authority, "http://"@ + authority, cookie, key),
{
    lemma_host(authority);
    reveal_strlit("host");
    reveal_strlit("connection");
    reveal_strlit("upgrade");
    reveal_strlit("sec-websocket-version");
    reveal_strlit("sec-websocket-key");
    reveal_strlit("origin");
    reveal_strlit("cookie");
    assert("host"@.len() == 4 && "connection"@.len() == 10 && "upgrade"@.len() == 7
        && "sec-websocket-version"@.len() == 21 && "sec-websocket-key"@.len() == 17
        && "origin"@.len() == 6 && "cookie"@.len() == 6 && "origin"@[0] != "cookie"@[0]);
}

proof fn lemma_host(authority: Seq<char>)
    requires
        authority.len() < 7 || authority.take(7) != "http://"@,
    ensures
        crate::ws_bridge::host_of("http://"@ + authority) == authority,
{
    reveal_strlit("http://");
    let scheme = "http://"@;
    let origin = scheme + authority;
    assert(origin.take(7) =~= scheme);
    assert(origin.skip(7) =~= authority);
    reveal_with_fuel(crate::text::without_prefix, 2);
}

/// An upgrade has exactly its seven fields: the authority, origin and cookie of
/// the Host whole, the key, and the three that never change. It fails only where
/// one of those texts cannot stand as a field value.
pub proof fn law_upgrades_have_seven_fields(
    origin: &str,
    cookie: &str,
    key: &str,
    authority: Seq<char>,
    fields: Option<http::HeaderMap<http::HeaderValue>>,
)
    requires
        call_ensures(upgrade_fields, (origin, cookie, key), fields),
        origin@ == "http://"@ + authority,
        authority.len() < 7 || authority.take(7) != "http://"@,
    ensures
        fields is Some <==> no_control(authority) && no_control(origin@) && no_control(cookie@)
            && no_control(key@),
        fields matches Some(headers) ==> seven_fields(
            crate::headers::header_fields(headers),
            authority,
            origin@,
            cookie@,
            key@,
        ),
{
    lemma_host(authority);
    lemma_no_control(authority);
    lemma_no_control(origin@);
    lemma_no_control(cookie@);
    lemma_no_control(key@);
    if let Some(headers) = fields {
        lemma_seven(crate::headers::header_fields(headers), authority, cookie@, key@);
    }
}

/// `answer` is a request for a stream of the Host at this authority.
pub open spec fn asks_the_host(
    authority: Seq<char>,
    cookie: Seq<char>,
    path: Seq<char>,
    key: Seq<char>,
    answer: Result<http::Request<()>, String>,
) -> bool {
    match crate::ws_bridge::uri_read("ws://"@ + authority + path) {
        Err(reason) => answer matches Err(message) && message@ == "building host stream request: "@
            + reason,
        Ok(uri) => if no_control(authority) && no_control("http://"@ + authority) && no_control(
            cookie,
        ) && no_control(key) {
            &&& answer matches Ok(request)
            &&& crate::ws_bridge::request_view(request).method == "GET"@
            &&& crate::ws_bridge::request_view(request).uri == uri
            &&& seven_fields(
                crate::ws_bridge::request_view(request).fields,
                authority,
                "http://"@ + authority,
                cookie,
                key,
            )
        } else {
            answer matches Err(message) && message@
                == "building host stream request: failed to parse header value"@
        },
    }
}

/// The path that was asked for, or the mux.
pub open spec fn asked_path(path: Option<&str>) -> Seq<char> {
    match path {
        Some(text) => text@,
        None => "/api/remote.mux"@,
    }
}

proof fn lemma_asks(
    connection: Option<(String, String)>,
    authority: Seq<char>,
    path: Option<&str>,
    key: Seq<char>,
    answer: Result<http::Request<()>, String>,
)
    requires
        crate::ws_bridge::serves(
            connection,
            match path {
                Some(text) => Some(text@),
                None => None,
            },
            key,
            answer,
        ),
        connection is Some,
        (connection->0).0@ == "http://"@ + authority,
        authority.len() < 7 || authority.take(7) != "http://"@,
    ensures
        asks_the_host(authority, (connection->0).1@, asked_path(path), key, answer),
{
    let cookie = (connection->0).1@;
    lemma_stream_url(authority, asked_path(path));
    lemma_host(authority);
    lemma_no_control(authority);
    lemma_no_control("http://"@ + authority);
    lemma_no_control(cookie);
    lemma_no_control(key);
    if let Ok(request) = answer {
        lemma_seven(crate::ws_bridge::request_view(request).fields, authority, cookie, key);
    }
}

/// A page stream asks the Host for the whole path with the Host's credentials,
/// and a Host that is not ready is asked for nothing.
pub proof fn law_streams_ask_the_host(
    connection: &Option<(String, String)>,
    authority: Seq<char>,
    path: Option<&str>,
    key: &str,
    answer: Result<http::Request<()>, String>,
)
    requires
        call_ensures(stream_request, (connection, path, key), answer),
    ensures
        connection is None ==> (answer matches Err(message) && message@
            == "stream bridge: Host is not ready"@),
        connection is Some && (connection->0).0@ == "http://"@ + authority && (authority.len() < 7
            || authority.take(7) != "http://"@) ==> asks_the_host(
            authority,
            (connection->0).1@,
            asked_path(path),
            key@,
            answer,
        ),
{
    if connection is Some && (connection->0).0@ == "http://"@ + authority && (authority.len() < 7
        || authority.take(7) != "http://"@) {
        lemma_asks(*connection, authority, path, key@, answer);
    }
}

/// So does a stream with a key of its own, whatever key that is.
pub proof fn law_fresh_streams_ask_the_host(
    connection: &Option<(String, String)>,
    authority: Seq<char>,
    path: Option<&str>,
    answer: Result<http::Request<()>, String>,
)
    requires
        call_ensures(serve_connection, (connection, path), answer),
    ensures
        connection is None ==> (answer matches Err(message) && message@
            == "stream bridge: Host is not ready"@),
        connection is Some && (connection->0).0@ == "http://"@ + authority && (authority.len() < 7
            || authority.take(7) != "http://"@) ==> exists|key: Seq<char>|
            key.len() == 24 && #[trigger] asks_the_host(
                authority,
                (connection->0).1@,
                asked_path(path),
                key,
                answer,
            ),
{
    let asked = match path {
        Some(text) => Some(text@),
        None => None,
    };
    let key = choose|key: Seq<char>|
        #![trigger crate::ws_bridge::handshake_key(key)]
        crate::ws_bridge::handshake_key(key) && crate::ws_bridge::serves(
            *connection,
            asked,
            key,
            answer,
        );
    if connection is Some && (connection->0).0@ == "http://"@ + authority && (authority.len() < 7
        || authority.take(7) != "http://"@) {
        lemma_asks(*connection, authority, path, key, answer);
    }
}

/// A built request is handed on as it is where its fields are safe, and a target
/// that is not read fails with the whole reason.
pub proof fn law_built_requests_are_handed_on(
    request: http::Request<()>,
    reason: String,
    safe: bool,
    built: Result<http::Request<()>, String>,
    refused: Result<http::Request<()>, String>,
)
    requires
        call_ensures(stream_answer, (Ok(request), safe), built),
        call_ensures(stream_answer, (Err(reason), safe), refused),
    ensures
        safe ==> built == Ok::<http::Request<()>, String>(request),
        !safe ==> (built matches Err(message) && message@
            == "building host stream request: failed to parse header value"@),
        refused matches Err(message) && message@ == "building host stream request: "@ + reason@,
{
}

/// While a relay runs every message goes to the other side as it is, the next
/// one of a side is read once the last was handed on, and the first side that
/// closes or fails ends it for both.
pub proof fn law_relays_run_until_a_side_ends<M>()
    ensures
        forall|state: &mut RelayState, event: RelayEvent<M>, step: RelayStep<M>| #[trigger]
            call_ensures(relay::<M>, (state, event), step) && (*state).outcome is None ==> {
                &&& event matches RelayEvent::Message { from, message } ==> {
                    &&& step matches RelayStep::HandOn { to, message: same }
                    &&& same == message
                    &&& from is Page ==> to is Host
                    &&& from is Host ==> to is Page
                    &&& final(state).outcome is None
                }
                &&& event matches RelayEvent::Sent { from } ==> step == (RelayStep::<M>::Read {
                    from,
                }) && final(state).outcome is None
                &&& event matches RelayEvent::Ended { from } ==> {
                    &&& step matches RelayStep::Over { close: Some(side) }
                    &&& from is Page ==> side is Host
                    &&& from is Host ==> side is Page
                    &&& final(state).outcome == Some(Ok::<(), String>(()))
                }
                &&& event matches RelayEvent::ReadFailed { reason, .. } ==> step == (
                RelayStep::<M>::Over { close: None }) && final(state).outcome == Some(
                    Err::<(), String>(reason),
                )
                &&& event matches RelayEvent::SendFailed { reason, .. } ==> step == (
                RelayStep::<M>::Over { close: None }) && final(state).outcome == Some(
                    Err::<(), String>(reason),
                )
            },
        forall|state: &mut RelayState, event: RelayEvent<M>, step: RelayStep<M>| #[trigger]
            call_ensures(relay::<M>, (state, event), step) && (*state).outcome is Some ==> step == (
            RelayStep::<M>::Over { close: None }) && final(state).outcome == (*state).outcome,
        forall|state: RelayState| #[trigger]
            call_ensures(RelayState::new, (), state) ==> state.outcome is None,
        forall|side: Side, other: Side| #[trigger]
            call_ensures(Side::other, (side,), other) ==> (side is Page <==> other is Host),
{
}

/// For a Host at any origin, the stream goes to the origin and the path with the
/// first `http://` as `ws://`, and the host field is the origin without that
/// prefix.
pub proof fn law_any_origin_is_asked(
    connection: &Option<(String, String)>,
    path: Option<&str>,
    key: &str,
    origin: &str,
    cookie: &str,
    whole: &str,
    scheme: &str,
    stream: &str,
    replaced: String,
    host: String,
    url: String,
    asked: &str,
    fields: Option<http::HeaderMap<http::HeaderValue>>,
    answer: Result<http::Request<()>, String>,
)
    requires
        scheme@ == "http://"@,
        stream@ == "ws://"@,
        whole@ == origin@ + asked@,
        asked@ == asked_path(path),
        connection is Some,
        (connection->0).0@ == origin@,
        (connection->0).1@ == cookie@,
        call_ensures(replace_first, (whole, scheme, stream), replaced),
        call_ensures(strip_prefixes, (origin, scheme), host),
        call_ensures(host_stream_url, (origin, asked), url),
        call_ensures(upgrade_fields, (origin, cookie, key), fields),
        call_ensures(stream_request, (connection, path, key), answer),
    ensures
        url@ == replaced@,
        fields is Some <==> no_control(host@) && no_control(origin@) && no_control(cookie@)
            && no_control(key@),
        fields matches Some(headers) ==> seven_fields(
            crate::headers::header_fields(headers),
            host@,
            origin@,
            cookie@,
            key@,
        ),
        crate::ws_bridge::uri_read(url@) matches Err(reason) ==> (answer matches Err(message)
            && message@ == "building host stream request: "@ + reason),
        crate::ws_bridge::uri_read(url@) is Ok && fields is None ==> (answer matches Err(message)
            && message@ == "building host stream request: failed to parse header value"@),
        crate::ws_bridge::uri_read(url@) matches Ok(uri) ==> fields is Some ==> {
            &&& answer matches Ok(request)
            &&& crate::ws_bridge::request_view(request).method == "GET"@
            &&& crate::ws_bridge::request_view(request).uri == uri
            &&& seven_fields(
                crate::ws_bridge::request_view(request).fields,
                host@,
                origin@,
                cookie@,
                key@,
            )
        },
{
    lemma_no_control(host@);
    lemma_no_control(origin@);
    lemma_no_control(cookie@);
    lemma_no_control(key@);
    reveal_strlit("host");
    reveal_strlit("connection");
    reveal_strlit("upgrade");
    reveal_strlit("sec-websocket-version");
    reveal_strlit("sec-websocket-key");
    reveal_strlit("origin");
    reveal_strlit("cookie");
    assert("host"@.len() == 4 && "connection"@.len() == 10 && "upgrade"@.len() == 7
        && "sec-websocket-version"@.len() == 21 && "sec-websocket-key"@.len() == 17
        && "origin"@.len() == 6 && "cookie"@.len() == 6 && "origin"@[0] != "cookie"@[0]);
}

} // verus!
