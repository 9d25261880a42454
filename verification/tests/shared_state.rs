//! The shared state: startup facts, the boot answer and fatal notices.

use dsh_desktop_tauri::hmr_bridge::HmrBridge;
use dsh_desktop_tauri::host::{HostHandle, StopAction};
use dsh_desktop_tauri::paths::ShellPaths;
use dsh_desktop_tauri::state::{script_showing, ShellState, Startup};

fn state() -> ShellState<&'static str, &'static str> {
    ShellState::new(ShellPaths::in_checkout("/repo", "mac-x64", String::from("node")))
}

fn ready(cookie: &str) -> Startup {
    Startup::Ready {
        host_origin: String::from("http://127.0.0.1:7"),
        cookie: String::from(cookie),
        injections: serde_json::from_str(r#"[{"kind":"script"}]"#).unwrap(),
    }
}

#[test]
fn new_state_is_pending() {
    let state = state();
    assert!(matches!(state.startup(), Startup::Pending));
    assert_eq!(state.host_connection(), None);
    assert!(state.wait_for_boot().is_none());
    assert_eq!(state.stream_base(), "http://127.0.0.1:0");
    assert!(state.paths.clone().dist.ends_with("/dsh-web-frontend/dist"));
}

#[test]
fn a_ready_host_has_a_connection() {
    let mut state = state();
    state.publish(ready("a=b"));
    assert_eq!(
        state.host_connection(),
        Some((String::from("http://127.0.0.1:7"), String::from("a=b")))
    );
    assert!(matches!(state.startup(), Startup::Ready { cookie, .. } if cookie == "a=b"));
    state.publish(Startup::Failed(String::from("gone")));
    assert_eq!(state.host_connection(), None);
}

#[test]
fn the_boot_answer_has_no_credential() {
    let mut state = state();
    state.set_stream_base(String::from("http://127.0.0.1:4242"));
    state.publish(ready("a=b"));
    let answer = state.wait_for_boot().unwrap().unwrap();
    let expected: serde_json::Value = serde_json::from_str(
        r#"{"injections":[{"kind":"script"}],"streamBaseUrl":"http://127.0.0.1:4242"}"#,
    )
    .unwrap();
    assert_eq!(answer, expected);
    state.publish(ready("other=1"));
    assert_eq!(state.wait_for_boot().unwrap().unwrap(), expected);
}

#[test]
fn the_boot_answer_tells_a_failure() {
    let mut state = state();
    state.publish(Startup::Failed(String::from("why")));
    assert_eq!(state.wait_for_boot(), Some(Err(String::from("why"))));
}

#[test]
fn startups_are_cloned_whole() {
    let copy = ready("a=b").clone();
    match copy {
        Startup::Ready { host_origin, cookie, injections } => {
            assert_eq!(host_origin, "http://127.0.0.1:7");
            assert_eq!(cookie, "a=b");
            assert_eq!(injections.to_string(), r#"[{"kind":"script"}]"#);
        }
        _ => panic!("not ready"),
    }
}

#[test]
fn fatal_notices_need_a_window_and_an_application() {
    let mut state = state();
    let none = state.show_fatal("why");
    assert!(none.script.is_none());
    assert!(none.dialog.is_none());
    state.set_window("window");
    let page = state.show_fatal("a \"b\"\n</pre>");
    assert_eq!(
        page.script.unwrap(),
        "document.open();document.write('<pre style=\"white-space:pre-wrap;font:13px ui-monospace,monospace;padding:24px\">dsh desktop: fatal\\n'+\"a \\\"b\\\"\\n</pre>\"+'</pre>');document.close();"
    );
    assert!(page.dialog.is_none());
    state.set_app("app");
    assert_eq!(state.window, Some("window"));
    assert_eq!(state.show_fatal("why").dialog.unwrap(), "dsh desktop: fatal\nwhy");
}

#[test]
fn the_fatal_message_reads_back() {
    let mut state = state();
    state.set_window("window");
    let message = "\u{0}\t\"\\'\u{2028}\u{1f600}";
    let script = state.show_fatal(message).script.unwrap();
    let around = script_showing("");
    let tail = "+'</pre>');document.close();".len();
    let head = around.len() - tail;
    let literal = &script[head..script.len() - tail];
    let read: serde_json::Value = serde_json::from_str(literal).unwrap();
    assert_eq!(read.as_str(), Some(message));
}

#[test]
fn the_host_handle_is_shared() {
    let mut state = state();
    assert!(state.host().is_none());
    state.set_host(HostHandle::new());
    state.host().unwrap().attach();
    assert!(matches!(
        state.host().unwrap().stop_blocking(),
        StopAction::RequestShutdown { .. }
    ));
    assert!(state.host().unwrap().stopping());
}

#[test]
fn frames_are_polled_once() {
    let mut state = state();
    assert!(state.hmr().is_none());
    assert!(state.desktop_hmr_poll().is_empty());
    state.set_hmr(HmrBridge::new());
    state.hmr().unwrap().push(String::from("one"));
    state.hmr().unwrap().push(String::from("two"));
    assert_eq!(state.desktop_hmr_poll(), vec![String::from("one"), String::from("two")]);
    assert!(state.desktop_hmr_poll().is_empty());
}
