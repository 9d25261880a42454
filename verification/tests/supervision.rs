//! Host supervision: launch, control frames, authentication and stopping.

use dsh_desktop_tauri::host::{
    authenticate, control_event, exit_message, host_entry, host_launch, host_ready, origin_of,
    origin_of_parts, read_host_events, supervise, supervision_failed, wait_exit, AuthReply,
    ControlFrame, ControlStep, ExitPoll, HostHandle, StderrTail, StopAction, SuperviseEvent,
    SuperviseStep, WaitEvent, WaitStep, MAX_STDERR_CHARS, SHUTDOWN_LINE,
};
use dsh_desktop_tauri::paths::ShellPaths;
use dsh_desktop_tauri::state::Startup;
use dsh_desktop_tauri::url::UrlParts;
use http::{HeaderMap, HeaderValue};

fn paths() -> ShellPaths {
    ShellPaths::in_checkout("/repo", "mac-arm64", String::from("/usr/bin/node"))
}

fn reply(status: u16, cookies: &[&str]) -> AuthReply {
    let mut headers = HeaderMap::new();
    for cookie in cookies {
        headers.append("set-cookie", HeaderValue::from_str(cookie).unwrap());
    }
    AuthReply::Answered { status, headers }
}

fn error_of(step: SuperviseStep) -> Option<String> {
    match step {
        SuperviseStep::Finished { error } => error,
        _ => panic!("supervision goes on"),
    }
}

fn line(text: &str) -> ControlStep {
    read_host_events(Ok(String::from(text)))
}

fn failure(step: ControlStep) -> String {
    match step {
        ControlStep::Fail(message) => message,
        _ => panic!("no failure"),
    }
}

#[test]
fn the_launch_has_the_agreed_arguments() {
    let launch = host_launch(&paths(), "/bin:/usr/bin");
    assert_eq!(launch.program, "/usr/bin/node");
    let project = "/repo/apps/desktop/.desktop-build/development/project";
    assert_eq!(
        launch.args,
        vec![
            String::from("--expose-internals"),
            format!("{project}/node_modules/@deepseek-ai/dsh-desktop-host/lib/index.js"),
            String::from(project),
            String::from(
                "/repo/apps/desktop/.desktop-build/development/home-tauri/profiles/desktop"
            ),
            String::from(
                "/repo/apps/desktop/.desktop-build/targets/mac-arm64/runtime/primary-runtime"
            ),
            String::from("link"),
            String::from("/repo/apps/desktop/node_modules/pnpm/bin/pnpm.mjs"),
            String::from("/repo/apps/desktop/scripts/node-bin"),
        ]
    );
    let env: Vec<(&str, &str)> =
        launch.env.iter().map(|(name, value)| (name.as_str(), value.as_str())).collect();
    assert_eq!(
        env,
        vec![
            ("DSH_HOME", "/repo/apps/desktop/.desktop-build/development/home-tauri"),
            ("DSH_DESKTOP_HOST_CONTROL", "stdio"),
            ("DSH_DESKTOP_HOST_CONTROL_FD", "0"),
            ("DSH_DESKTOP_NODE_EXECUTABLE", "/usr/bin/node"),
            ("PATH", "/repo/apps/desktop/scripts/node-bin:/bin:/usr/bin"),
        ]
    );
}

#[test]
fn an_empty_path_keeps_its_colon() {
    let launch = host_launch(&paths(), "");
    assert_eq!(launch.env[4].1, "/repo/apps/desktop/scripts/node-bin:");
}

#[test]
fn supervision_starts_with_the_entry() {
    let step = supervise(&paths(), "/bin", SuperviseEvent::Entry { is_file: true });
    assert!(matches!(step, SuperviseStep::Launch(launch) if launch.args.len() == 8));
    let missing = supervise(&paths(), "/bin", SuperviseEvent::Entry { is_file: false });
    assert_eq!(
        error_of(missing),
        Some(format!("dsh desktop tauri: missing Desktop Host entry {}", host_entry(&paths())))
    );
}

#[test]
fn supervision_names_what_failed() {
    let because = || String::from("why");
    assert_eq!(
        error_of(supervise(&paths(), "", SuperviseEvent::PairFailed(because()))),
        Some(String::from("control socketpair: why"))
    );
    assert_eq!(
        error_of(supervise(&paths(), "", SuperviseEvent::SpawnFailed(because()))),
        Some(String::from("spawning Desktop Host with /usr/bin/node: why"))
    );
    assert_eq!(
        error_of(supervise(&paths(), "", SuperviseEvent::CloneFailed(because()))),
        Some(String::from("cloning control socket: why"))
    );
    assert_eq!(
        error_of(supervise(&paths(), "", SuperviseEvent::EventsFailed(because()))),
        Some(String::from("why"))
    );
    assert_eq!(
        error_of(supervise(&paths(), "", SuperviseEvent::WaitFailed(because()))),
        Some(String::from("waiting for Desktop Host exit: why"))
    );
}

#[test]
fn supervision_waits_for_an_unexpected_end() {
    assert!(matches!(
        supervise(&paths(), "", SuperviseEvent::Spawned),
        SuperviseStep::ReadEvents
    ));
    let ended = |stopping: bool, failed: bool| {
        supervise(&paths(), "", SuperviseEvent::EventsEnded { stopping, failed })
    };
    assert!(matches!(ended(false, false), SuperviseStep::AwaitExit));
    assert_eq!(error_of(ended(true, false)), None);
    assert_eq!(error_of(ended(false, true)), None);
    assert_eq!(error_of(supervise(&paths(), "", SuperviseEvent::ChildGone)), None);
}

#[test]
fn exits_are_reported_with_the_tail_of_stderr() {
    assert_eq!(exit_message("exit status: 1", " \n\t"), "Desktop Host exited with exit status: 1");
    assert_eq!(
        exit_message("exit status: 1", "\nboom\nat x\n"),
        "Desktop Host exited with exit status: 1: boom\nat x"
    );
    let exited = SuperviseEvent::Exited {
        status: String::from("signal: 9"),
        stderr: String::from("gone\n"),
    };
    assert_eq!(
        error_of(supervise(&paths(), "", exited)),
        Some(String::from("Desktop Host exited with signal: 9: gone"))
    );
}

#[test]
fn failures_are_published_until_the_host_is_ready() {
    let failed = supervision_failed(&Startup::Pending, "why");
    assert!(matches!(failed, Some(Startup::Failed(message)) if message == "why"));
    let again = supervision_failed(&Startup::Failed(String::from("old")), "new");
    assert!(matches!(again, Some(Startup::Failed(message)) if message == "new"));
    let ready = Startup::Ready {
        host_origin: String::from("http://127.0.0.1:1"),
        cookie: String::from("a=b"),
        injections: serde_json::Value::Null,
    };
    assert!(supervision_failed(&ready, "why").is_none());
}

#[test]
fn the_tail_of_stderr_is_bounded() {
    let mut tail = StderrTail::new();
    assert_eq!(tail.text(), "");
    tail.push_line("one");
    tail.push_line("");
    assert_eq!(tail.text(), "one\n\n");
    let long = "\u{e9}".repeat(MAX_STDERR_CHARS - 4);
    tail.push_line(&long);
    assert_eq!(tail.text().chars().count(), MAX_STDERR_CHARS);
    assert_eq!(tail.text(), format!("e\n\n{long}\n"));
    let longer = "x".repeat(2 * MAX_STDERR_CHARS);
    tail.push_line(&longer);
    assert_eq!(tail.text(), format!("{}\n", "x".repeat(MAX_STDERR_CHARS - 1)));
}

#[test]
fn many_lines_leave_the_end_of_all() {
    let mut tail = StderrTail::new();
    let mut all = String::new();
    for i in 0..40 {
        let text = format!("{i}").repeat(1500);
        all.push_str(&text);
        all.push('\n');
        tail.push_line(&text);
    }
    let skipped = all.chars().count() - MAX_STDERR_CHARS;
    let end: String = all.chars().skip(skipped).collect();
    assert_eq!(tail.text(), end);
}

#[test]
fn stopping_escalates() {
    let mut handle = HostHandle::new();
    assert!(matches!(handle.stop_blocking(), StopAction::Done));
    assert!(!handle.stopping());
    handle.attach();
    assert!(!handle.stopping());
    assert!(matches!(
        handle.stop_blocking(),
        StopAction::RequestShutdown { wait_ms: 10000 }
    ));
    assert!(handle.stopping());
    assert!(matches!(handle.waited(false), StopAction::Terminate { wait_ms: 5000 }));
    assert!(matches!(handle.waited(false), StopAction::Kill));
    assert!(matches!(handle.waited(false), StopAction::Done));
    assert!(handle.stopping());
    assert_eq!(SHUTDOWN_LINE, "{\"type\":\"shutdown\"}\n");
}

#[test]
fn stopping_ends_with_the_exit() {
    let mut handle = HostHandle::new();
    handle.attach();
    handle.stop_blocking();
    assert!(matches!(handle.waited(true), StopAction::Done));
    let mut slow = HostHandle::new();
    slow.attach();
    slow.stop_blocking();
    slow.waited(false);
    assert!(matches!(slow.waited(true), StopAction::Done));
}

#[test]
fn stopping_acts_once() {
    let mut handle = HostHandle::new();
    handle.attach();
    handle.stop_blocking();
    assert!(matches!(handle.stop_blocking(), StopAction::Done));
    handle.release();
    assert!(!handle.stopping());
    assert!(matches!(handle.stop_blocking(), StopAction::Done));
    assert!(matches!(handle.waited(false), StopAction::Done));
}

#[test]
fn waits_poll_within_their_budget() {
    assert!(matches!(wait_exit(5000, WaitEvent::Elapsed(0)), WaitStep::Poll));
    assert!(matches!(wait_exit(5000, WaitEvent::Elapsed(4999)), WaitStep::Poll));
    assert!(matches!(
        wait_exit(5000, WaitEvent::Elapsed(5000)),
        WaitStep::Finished { exited: false }
    ));
    assert!(matches!(
        wait_exit(5000, WaitEvent::Polled(ExitPoll::Running)),
        WaitStep::Sleep { milliseconds: 100 }
    ));
    assert!(matches!(
        wait_exit(5000, WaitEvent::Polled(ExitPoll::Exited)),
        WaitStep::Finished { exited: true }
    ));
    assert!(matches!(
        wait_exit(5000, WaitEvent::Polled(ExitPoll::Unknown)),
        WaitStep::Finished { exited: true }
    ));
}

#[test]
fn ready_frames_ask_for_authentication() {
    let step = line(r#"{"type":"ready","url":"http://127.0.0.1:1/?t=x","injections":[{"a":1}]}"#);
    match step {
        ControlStep::Authenticate { url, injections } => {
            assert_eq!(url, "http://127.0.0.1:1/?t=x");
            assert_eq!(injections.to_string(), r#"[{"a":1}]"#);
        }
        _ => panic!("no authentication"),
    }
}

#[test]
fn ready_frames_need_no_injections() {
    let step = line(r#"{"type":"ready","url":"u"}"#);
    assert!(matches!(
        step,
        ControlStep::Authenticate { injections, .. } if injections.to_string() == "[]"
    ));
    let null = line(r#"{"type":"ready","url":"u","injections":null}"#);
    assert!(matches!(
        null,
        ControlStep::Authenticate { injections, .. } if injections.is_null()
    ));
}

#[test]
fn ready_frames_need_a_url() {
    let message = "Desktop Host ready frame has no url";
    assert_eq!(failure(line(r#"{"type":"ready"}"#)), message);
    assert_eq!(failure(line(r#"{"type":"ready","url":7}"#)), message);
}

#[test]
fn fatal_frames_are_published_and_shown() {
    let step = line(r#"{"type":"fatal","message":"no \"disk\""}"#);
    assert!(matches!(
        step,
        ControlStep::Fatal { failure, shown }
            if failure == "Desktop Host: no \"disk\"" && shown == "no \"disk\""
    ));
    let silent = line(r#"{"type":"fatal"}"#);
    assert!(matches!(
        silent,
        ControlStep::Fatal { failure, shown }
            if failure == "Desktop Host: Desktop Host reported a fatal error"
                && shown == "Desktop Host reported a fatal error"
    ));
}

#[test]
fn replies_and_blank_lines_need_nothing() {
    assert!(matches!(line(""), ControlStep::Continue));
    assert!(matches!(line(" \t\r"), ControlStep::Continue));
    assert!(matches!(line(r#"{"type":"shutdown-complete"}"#), ControlStep::Continue));
    assert!(matches!(
        line(r#"{"type":"update-tasks","requestId":1,"active":false}"#),
        ControlStep::Continue
    ));
}

#[test]
fn foreign_frames_are_fatal() {
    for text in [r#"{"type":"bogus"}"#, "{}", "[1]", r#"{"type":1}"#, "null", r#""ready""#] {
        assert_eq!(
            failure(line(text)),
            format!("Desktop Host sent an invalid control frame: {text}")
        );
    }
    let frame = ControlFrame { kind: None, url: None, message: None, injections: None };
    assert_eq!(
        failure(control_event(frame, "x")),
        "Desktop Host sent an invalid control frame: x"
    );
}

#[test]
fn invalid_frames_end_the_reading() {
    assert_eq!(failure(line("{")), "Desktop Host sent an invalid control frame: {");
    assert_eq!(failure(line("ready")), "Desktop Host sent an invalid control frame: ready");
    assert_eq!(
        failure(read_host_events(Err(String::from("reset")))),
        "control socket: reset"
    );
}

#[test]
fn authentication_keeps_the_cookie_pair() {
    assert_eq!(
        authenticate(&reply(303, &["dsh=secret; Path=/; HttpOnly"])),
        Ok(String::from("dsh=secret"))
    );
    assert_eq!(authenticate(&reply(303, &["dsh=secret"])), Ok(String::from("dsh=secret")));
    assert_eq!(authenticate(&reply(303, &["a=1; x", "b=2"])), Ok(String::from("a=1")));
    assert_eq!(authenticate(&reply(303, &[";x"])), Ok(String::new()));
}

#[test]
fn authentication_fails_with_the_status() {
    let message = |status: u16| Err(format!("Desktop Host authentication failed ({status})"));
    assert_eq!(authenticate(&reply(200, &["dsh=secret"])), message(200));
    assert_eq!(authenticate(&reply(303, &[])), message(303));
    assert_eq!(authenticate(&reply(303, &["caf\u{e9}"])), message(303));
    assert_eq!(authenticate(&reply(404, &[])), message(404));
    assert_eq!(
        authenticate(&AuthReply::Failed(String::from("refused"))),
        Err(String::from("Desktop Host authentication request failed: refused"))
    );
}

#[test]
fn origins_have_scheme_host_and_port() {
    assert_eq!(
        origin_of("http://127.0.0.1:19387/?token=x"),
        Ok(String::from("http://127.0.0.1:19387"))
    );
    assert_eq!(origin_of("http://localhost/a"), Ok(String::from("http://localhost:80")));
    assert_eq!(origin_of("HTTPS://LocalHost"), Ok(String::from("https://localhost:443")));
    assert_eq!(origin_of("data:text"), Err(String::from("Desktop Host url has no port")));
    assert_eq!(
        origin_of("nowhere"),
        Err(String::from("Desktop Host url: relative URL without a base"))
    );
    let hostless =
        UrlParts { scheme: String::from("http"), host: None, port: Some(8080) };
    assert_eq!(origin_of_parts(&hostless), Ok(String::from("http://127.0.0.1:8080")));
    let portless =
        UrlParts { scheme: String::from("x"), host: Some(String::from("h")), port: None };
    assert_eq!(
        origin_of_parts(&portless),
        Err(String::from("Desktop Host url has no port"))
    );
}

#[test]
fn ready_hosts_are_published_whole() {
    let table: serde_json::Value = serde_json::from_str(r#"{"k":[1,"two"]}"#).unwrap();
    let startup =
        host_ready("http://127.0.0.1:5/?t", table.clone(), &reply(303, &["a=b; c"])).unwrap();
    match startup {
        Startup::Ready { host_origin, cookie, injections } => {
            assert_eq!(host_origin, "http://127.0.0.1:5");
            assert_eq!(cookie, "a=b");
            assert_eq!(injections, table);
        }
        _ => panic!("not ready"),
    }
}

#[test]
fn the_reply_is_looked_at_before_the_url() {
    let none = serde_json::Value::Null;
    assert_eq!(
        host_ready("nowhere", none.clone(), &reply(500, &[])).err(),
        Some(String::from("Desktop Host authentication failed (500)"))
    );
    assert_eq!(
        host_ready("nowhere", none, &reply(303, &["a=b"])).err(),
        Some(String::from("Desktop Host url: relative URL without a base"))
    );
}
