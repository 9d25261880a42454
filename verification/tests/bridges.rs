//! The plugins-events bridge and the stream bridge.

use dsh_desktop_tauri::hmr_bridge::{
    next_events_step, payload_of, EventLines, EventsEvent, EventsStep, HmrBridge,
    MAX_QUEUED_FRAMES,
};
use dsh_desktop_tauri::ws_bridge::{
    bridge_origin, host_stream_url, relay, serve_connection, stream_request, upgrade_fields,
    OriginGate, RelayEvent, RelayState, RelayStep, Side,
};
use http::{HeaderMap, HeaderValue};

const KEY: &str = "dGhlIHNhbXBsZSBub25jZQ==";

fn connection() -> Option<(String, String)> {
    Some((String::from("http://127.0.0.1:19387"), String::from("dsh=secret")))
}

fn origin(value: &[u8]) -> HeaderMap {
    let mut headers = HeaderMap::new();
    headers.insert("origin", HeaderValue::from_bytes(value).unwrap());
    headers
}

#[test]
fn frames_come_out_in_arrival_order() {
    let mut bridge = HmrBridge::new();
    let mut lines = EventLines::new();
    lines.feed(b": hello\n\ndata: {\"a\":1}\ndata:  two \r\n", &mut bridge);
    assert_eq!(bridge.drain(), vec![String::from("{\"a\":1}"), String::from("two")]);
    assert!(bridge.drain().is_empty());
}

#[test]
fn lines_without_payload_are_skipped() {
    let mut bridge = HmrBridge::new();
    let mut lines = EventLines::new();
    lines.feed(b"data: \ndata:x\nevent: y\n data: z\ndata: \t \n\n", &mut bridge);
    assert!(bridge.drain().is_empty());
    assert_eq!(payload_of(" x y "), Some(String::from("x y")));
    assert_eq!(payload_of(" \u{3000}"), None);
}

#[test]
fn chunks_may_cut_anywhere() {
    let stream = "data: caf\u{e9}\ndata: b\n".as_bytes();
    for cut in 0..stream.len() {
        let mut bridge = HmrBridge::new();
        let mut lines = EventLines::new();
        lines.feed(&stream[..cut], &mut bridge);
        lines.feed(&stream[cut..], &mut bridge);
        assert_eq!(bridge.drain(), vec![String::from("caf\u{e9}"), String::from("b")]);
    }
}

#[test]
fn unfinished_lines_wait() {
    let mut bridge = HmrBridge::new();
    let mut lines = EventLines::new();
    lines.feed(b"data: a", &mut bridge);
    assert!(bridge.drain().is_empty());
    lines.feed(b"bc\n", &mut bridge);
    assert_eq!(bridge.drain(), vec![String::from("abc")]);
}

#[test]
fn invalid_bytes_are_replaced() {
    let mut bridge = HmrBridge::new();
    let mut lines = EventLines::new();
    lines.feed(b"data: a\xffb\n", &mut bridge);
    assert_eq!(bridge.drain(), vec![String::from("a\u{fffd}b")]);
}

#[test]
fn full_queues_drop_the_oldest() {
    let mut bridge = HmrBridge::new();
    for i in 0..40 {
        bridge.push(format!("{i}"));
    }
    let frames = bridge.drain();
    assert_eq!(frames.len(), MAX_QUEUED_FRAMES);
    assert_eq!(frames[0], "8");
    assert_eq!(frames[31], "39");
}

#[test]
fn the_events_bridge_waits_and_reconnects() {
    assert!(matches!(
        next_events_step(&None, EventsEvent::Idle),
        EventsStep::Wait { milliseconds: 500 }
    ));
    match next_events_step(&connection(), EventsEvent::Idle) {
        EventsStep::Connect { url, accept, cookie } => {
            assert_eq!(url, "http://127.0.0.1:19387/plugins/events");
            assert_eq!(accept, "text/event-stream");
            assert_eq!(cookie, "dsh=secret");
        }
        _ => panic!("no connection"),
    }
    let answered = |status: u16| next_events_step(&connection(), EventsEvent::Answered { status });
    assert!(matches!(answered(200), EventsStep::Read));
    assert!(matches!(answered(299), EventsStep::Read));
    assert!(matches!(answered(199), EventsStep::Wait { milliseconds: 1000 }));
    assert!(matches!(answered(300), EventsStep::Wait { milliseconds: 1000 }));
    assert!(matches!(
        next_events_step(&connection(), EventsEvent::Failed),
        EventsStep::Wait { milliseconds: 1000 }
    ));
    assert!(matches!(
        next_events_step(&None, EventsEvent::Ended),
        EventsStep::Wait { milliseconds: 1000 }
    ));
}

#[test]
fn the_gate_admits_the_application() {
    let gate = OriginGate::for_application();
    let page = origin(b"dsh-app://app");
    assert_eq!(
        gate.on_request(&page, Some("/api/remote.mux?x=1")).ok(),
        Some(String::from("/api/remote.mux?x=1"))
    );
    assert_eq!(gate.on_request(&page, None).ok(), Some(String::from("/api/remote.mux")));
}

#[test]
fn the_gate_rejects_all_others() {
    let gate = OriginGate::for_application();
    let foreign: [&[u8]; 4] =
        [b"https://example.com", b"dsh-app://app/", b"dsh-app://APP", b"dsh-app://app\xff"];
    for value in foreign {
        let rejection = gate.on_request(&origin(value), Some("/x")).err().unwrap();
        assert_eq!(rejection.status, 403);
        assert_eq!(rejection.body, "origin rejected");
    }
    assert!(gate.on_request(&HeaderMap::new(), Some("/x")).is_err());
    let mut two = origin(b"https://example.com");
    two.append("origin", HeaderValue::from_static("dsh-app://app"));
    assert!(gate.on_request(&two, Some("/x")).is_err());
}

#[test]
fn bridges_have_loopback_origins() {
    assert_eq!(bridge_origin(0), "http://127.0.0.1:0");
    assert_eq!(bridge_origin(80), "http://127.0.0.1:80");
    assert_eq!(bridge_origin(65535), "http://127.0.0.1:65535");
}

#[test]
fn streams_go_over_ws() {
    assert_eq!(
        host_stream_url("http://127.0.0.1:1", "/api/remote.mux"),
        "ws://127.0.0.1:1/api/remote.mux"
    );
    assert_eq!(
        host_stream_url("http://127.0.0.1:1", "/a?u=http://x"),
        "ws://127.0.0.1:1/a?u=http://x"
    );
    assert_eq!(host_stream_url("https://h:1", "/a"), "https://h:1/a");
}

#[test]
fn upgrade_requests_have_seven_fields() {
    let fields = upgrade_fields("http://127.0.0.1:1", "a=b", KEY).unwrap();
    assert_eq!(fields.len(), 7);
    assert_eq!(fields["host"], "127.0.0.1:1");
    assert_eq!(fields["connection"], "Upgrade");
    assert_eq!(fields["upgrade"], "websocket");
    assert_eq!(fields["sec-websocket-version"], "13");
    assert_eq!(fields["sec-websocket-key"], KEY);
    assert_eq!(fields["origin"], "http://127.0.0.1:1");
    assert_eq!(fields["cookie"], "a=b");
    assert!(upgrade_fields("http://127.0.0.1:1", "a\nb", KEY).is_none());
    assert!(upgrade_fields("http://\n", "a=b", KEY).is_none());
    let twice = upgrade_fields("http://http://h", "a=b", KEY).unwrap();
    assert_eq!(twice["host"], "h");
}

#[test]
fn stream_requests_carry_the_host_credentials() {
    let request = stream_request(&connection(), Some("/api/remote.mux?x=1"), KEY).unwrap();
    assert_eq!(request.method().as_str(), "GET");
    assert_eq!(request.uri().to_string(), "ws://127.0.0.1:19387/api/remote.mux?x=1");
    assert_eq!(request.headers().len(), 7);
    assert_eq!(request.headers()["host"], "127.0.0.1:19387");
    assert_eq!(request.headers()["origin"], "http://127.0.0.1:19387");
    assert_eq!(request.headers()["cookie"], "dsh=secret");
    assert_eq!(request.headers()["sec-websocket-key"], KEY);
    let bare = stream_request(&connection(), None, KEY).unwrap();
    assert_eq!(bare.uri().to_string(), "ws://127.0.0.1:19387/api/remote.mux");
}

#[test]
fn stream_requests_can_fail() {
    assert_eq!(
        stream_request(&None, None, KEY).err(),
        Some(String::from("stream bridge: Host is not ready"))
    );
    let uri = stream_request(&connection(), Some("/a b"), KEY).err();
    assert_eq!(uri, Some(String::from("building host stream request: invalid uri character")));
    let cookie = Some((String::from("http://h:1"), String::from("a\nb")));
    assert_eq!(
        stream_request(&cookie, Some("/a"), KEY).err(),
        Some(String::from("building host stream request: failed to parse header value"))
    );
    assert_eq!(
        stream_request(&cookie, Some("/a b"), KEY).err(),
        Some(String::from("building host stream request: invalid uri character"))
    );
}

#[test]
fn every_stream_has_a_key_of_its_own() {
    let first = serve_connection(&connection(), Some("/a")).unwrap();
    let second = serve_connection(&connection(), Some("/a")).unwrap();
    let key = first.headers()["sec-websocket-key"].to_str().unwrap();
    assert_eq!(key.len(), 24);
    assert!(key.ends_with("=="));
    assert!(key[..22].chars().all(|c| c.is_ascii_alphanumeric() || c == '+' || c == '/'));
    assert_ne!(first.headers()["sec-websocket-key"], second.headers()["sec-websocket-key"]);
    assert_eq!(
        serve_connection(&None, Some("/a")).err(),
        Some(String::from("stream bridge: Host is not ready"))
    );
}

#[test]
fn relays_hand_messages_on() {
    let mut state = RelayState::new();
    for (from, to) in [(Side::Page, Side::Host), (Side::Host, Side::Page)] {
        let step = relay(&mut state, RelayEvent::Message { from, message: "frame" });
        assert!(matches!(
            step,
            RelayStep::HandOn { to: side, message: "frame" } if side == to
        ));
        let next = relay::<&str>(&mut state, RelayEvent::Sent { from });
        assert!(matches!(next, RelayStep::Read { from: side } if side == from));
        assert_eq!(from.other(), to);
    }
    assert_eq!(state.outcome, None);
}

#[test]
fn relays_end_when_either_side_closes() {
    for (from, to) in [(Side::Page, Side::Host), (Side::Host, Side::Page)] {
        let mut state = RelayState::new();
        let step = relay::<u8>(&mut state, RelayEvent::Ended { from });
        assert!(matches!(step, RelayStep::Over { close: Some(side) } if side == to));
        assert_eq!(state.outcome, Some(Ok(())));
        let late = relay(&mut state, RelayEvent::Message { from: to, message: 7u8 });
        assert!(matches!(late, RelayStep::Over { close: None }));
        assert_eq!(state.outcome, Some(Ok(())));
    }
}

#[test]
fn relays_end_with_the_first_failure() {
    let why = |text: &str| String::from(text);
    let mut state = RelayState::new();
    let failed = RelayEvent::<u8>::ReadFailed { from: Side::Host, reason: why("r") };
    assert!(matches!(relay(&mut state, failed), RelayStep::Over { close: None }));
    assert_eq!(state.outcome, Some(Err(why("r"))));
    let second = RelayEvent::<u8>::SendFailed { from: Side::Page, reason: why("s") };
    assert!(matches!(relay(&mut state, second), RelayStep::Over { close: None }));
    assert_eq!(state.outcome, Some(Err(why("r"))));
    let mut other = RelayState::new();
    let send = RelayEvent::<u8>::SendFailed { from: Side::Page, reason: why("s") };
    relay(&mut other, send);
    assert_eq!(other.outcome, Some(Err(why("s"))));
}
