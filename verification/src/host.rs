//! Desktop Host supervision: launch the Node host over a duplex control
//! socket, authenticate its launch URL into a shell-held cookie, and stop it
//! with escalating termination on exit.
//!
//! Spawning, reading, requesting and signalling are the caller's. The
//! functions here say what is due next and what becomes of each outcome.

use vstd::prelude::*;

use crate::headers::{first_value, visible_text};
use crate::json::{copy, empty_list, member, parse, text_member, JsonView};
use crate::path::join;
use crate::paths::ShellPaths;
use crate::state::{Startup, StartupView};
use crate::text::{decimal, keep_last, same_text, text_before, trim};
use crate::url::{read_url, UrlParts};

verus! {

/// Ceiling for retained Host stderr.
pub const MAX_STDERR_CHARS: usize = 65536;

/// The control line that asks the Host to shut down.
pub const SHUTDOWN_LINE: &'static str = "{\"type\":\"shutdown\"}\n";

/// How long the Host may take to answer a shutdown request.
pub const SHUTDOWN_GRACE_MS: u64 = 10000;

/// How long the Host may take to exit after a termination signal.
pub const TERMINATE_GRACE_MS: u64 = 5000;

/// How long to sleep between two looks at a running Host.
pub const EXIT_POLL_MS: u64 = 100;

/// How far the Host in a handle has been asked to stop.
pub enum HostSlot {
    /// There is no Host.
    Empty,
    Running,
    /// A shutdown was requested.
    Asked,
    /// A termination signal was sent.
    Terminated,
    /// The Host was killed.
    Killed,
}

/// Supervised handle exposed to the shell exit path.
pub struct HostHandle {
    pub slot: HostSlot,
}

/// What stopping the Host needs next.
pub enum StopAction {
    /// Nothing: it is done.
    Done,
    /// Send [`SHUTDOWN_LINE`] and wait so long for the exit.
    RequestShutdown { wait_ms: u64 },
    /// Send a termination signal and wait so long for the exit.
    Terminate { wait_ms: u64 },
    /// Kill the Host and reap it.
    Kill,
}

/// The slot and the action when a stop is asked for. Only the first request
/// acts.
pub open spec fn stop_asked(slot: HostSlot) -> (HostSlot, StopAction) {
    match slot {
        HostSlot::Running => (
            HostSlot::Asked,
            StopAction::RequestShutdown { wait_ms: SHUTDOWN_GRACE_MS },
        ),
        other => (other, StopAction::Done),
    }
}

/// The slot and the action when a wait for the exit is over.
pub open spec fn stop_waited(slot: HostSlot, exited: bool) -> (HostSlot, StopAction) {
    match slot {
        HostSlot::Asked => if exited {
            (slot, StopAction::Done)
        } else {
            (HostSlot::Terminated, StopAction::Terminate { wait_ms: TERMINATE_GRACE_MS })
        },
        HostSlot::Terminated => if exited {
            (slot, StopAction::Done)
        } else {
            (HostSlot::Killed, StopAction::Kill)
        },
        other => (other, StopAction::Done),
    }
}

impl HostHandle {
    /// Whether a stop was asked for.
    pub open spec fn is_stopping(self) -> bool {
        self.slot is Asked || self.slot is Terminated || self.slot is Killed
    }

    /// A handle without a Host.
    pub fn new() -> (handle: Self)
        ensures
            handle.slot is Empty,
    {
        HostHandle { slot: HostSlot::Empty }
    }

    /// A Host was spawned.
    pub fn attach(&mut self)
        ensures
            final(self).slot is Running,
    {
        self.slot = HostSlot::Running;
    }

    /// Release the child slot so exit-time stop is a no-op after a spawn failure.
    pub fn release(&mut self)
        ensures
            final(self).slot is Empty,
    {
        self.slot = HostSlot::Empty;
    }

    /// Whether a stop was asked for.
    pub fn stopping(&self) -> (stopping: bool)
        ensures
            stopping == self.is_stopping(),
    {
        match self.slot {
            HostSlot::Empty => false,
            HostSlot::Running => false,
            _ => true,
        }
    }

    /// Start to stop the Host: request shutdown, then escalate to SIGTERM and
    /// SIGKILL.
    pub fn stop_blocking(&mut self) -> (action: StopAction)
        ensures
            (final(self).slot, action) == stop_asked(old(self).slot),
    {
        match self.slot {
            HostSlot::Running => {
                self.slot = HostSlot::Asked;
                StopAction::RequestShutdown { wait_ms: SHUTDOWN_GRACE_MS }
            },
            _ => StopAction::Done,
        }
    }

    /// Go on when a wait for the exit is over.
    pub fn waited(&mut self, exited: bool) -> (action: StopAction)
        ensures
            (final(self).slot, action) == stop_waited(old(self).slot, exited),
    {
        match self.slot {
            HostSlot::Asked => {
                if exited {
                    StopAction::Done
                } else {
                    self.slot = HostSlot::Terminated;
                    StopAction::Terminate { wait_ms: TERMINATE_GRACE_MS }
                }
            },
            HostSlot::Terminated => {
                if exited {
                    StopAction::Done
                } else {
                    self.slot = HostSlot::Killed;
                    StopAction::Kill
                }
            },
            _ => StopAction::Done,
        }
    }
}

/// What a look at the Host process shows.
pub enum ExitPoll {
    Exited,
    Running,
    /// The look failed.
    Unknown,
}

/// What happened in a wait for the exit.
pub enum WaitEvent {
    /// So much of the budget is used up.
    Elapsed(u64),
    Polled(ExitPoll),
}

/// What a wait for the exit needs next.
pub enum WaitStep {
    /// A look at the Host process.
    Poll,
    /// A sleep, and then the time.
    Sleep { milliseconds: u64 },
    /// Nothing: the wait is over.
    Finished { exited: bool },
}

/// The step behind an event of a wait with a budget in milliseconds.
pub open spec fn wait_step(budget: u64, event: WaitEvent) -> WaitStep {
    match event {
        WaitEvent::Elapsed(used) => if used < budget {
            WaitStep::Poll
        } else {
            WaitStep::Finished { exited: false }
        },
        WaitEvent::Polled(ExitPoll::Running) => WaitStep::Sleep { milliseconds: EXIT_POLL_MS },
        WaitEvent::Polled(_) => WaitStep::Finished { exited: true },
    }
}

/// One step of a wait for the exit within a budget in milliseconds.
pub fn wait_exit(budget: u64, event: WaitEvent) -> (step: WaitStep)
    ensures
        step == wait_step(budget, event),
{
    match event {
        WaitEvent::Elapsed(used) => {
            if used < budget {
                WaitStep::Poll
            } else {
                WaitStep::Finished { exited: false }
            }
        },
        WaitEvent::Polled(ExitPoll::Running) => WaitStep::Sleep { milliseconds: EXIT_POLL_MS },
        WaitEvent::Polled(_) => WaitStep::Finished { exited: true },
    }
}

/// The last characters that the Host wrote to stderr.
pub struct StderrTail {
    text: String,
}

impl View for StderrTail {
    type V = Seq<char>;

    closed spec fn view(&self) -> Seq<char> {
        self.text@
    }
}

/// What is kept of stderr after one more line.
pub open spec fn tail_with(tail: Seq<char>, line: Seq<char>) -> Seq<char> {
    crate::text::last_chars(tail + line + "\n"@, MAX_STDERR_CHARS as nat)
}

impl StderrTail {
    /// The tail stays within its ceiling.
    pub open spec fn wf(self) -> bool {
        self@.len() <= MAX_STDERR_CHARS
    }

    /// Nothing was written yet.
    pub fn new() -> (tail: Self)
        ensures
            tail@ == Seq::<char>::empty(),
            tail.wf(),
    {
        StderrTail { text: String::new() }
    }

    /// Keep one more line, and only the last characters of all.
    pub fn push_line(&mut self, line: &str)
        ensures
            final(self)@ == tail_with(old(self)@, line@),
            final(self).wf(),
    {
        let mut text = self.text.clone();
        text.append(line);
        text.append("\n");
        self.text = keep_last(text.as_str(), MAX_STDERR_CHARS);
    }

    /// What is kept.
    pub fn text(&self) -> (text: &str)
        ensures
            text@ == self@,
    {
        self.text.as_str()
    }
}

/// How the Host process is launched.
pub struct HostLaunch {
    pub program: String,
    pub args: Vec<String>,
    /// Variables set on top of the inherited environment.
    pub env: Vec<(String, String)>,
}

/// The Host entry in the development project.
pub open spec fn entry_in(dsh_dir: Seq<char>) -> Seq<char> {
    crate::path::joined(dsh_dir, "node_modules/@deepseek-ai/dsh-desktop-host/lib/index.js"@)
}

/// The arguments of the Host process.
pub open spec fn host_args(paths: crate::paths::ShellPathsView) -> Seq<Seq<char>> {
    seq![
        "--expose-internals"@,
        entry_in(paths.dsh_dir),
        paths.dsh_dir,
        paths.profile,
        paths.primary_runtime,
        "link"@,
        paths.pnpm,
        paths.node_bin,
    ]
}

/// The variables that the Host process gets, with the launcher directory ahead
/// of the inherited PATH.
pub open spec fn host_env(
    paths: crate::paths::ShellPathsView,
    inherited_path: Seq<char>,
) -> Seq<(Seq<char>, Seq<char>)> {
    seq![
        ("DSH_HOME"@, paths.home),
        ("DSH_DESKTOP_HOST_CONTROL"@, "stdio"@),
        ("DSH_DESKTOP_HOST_CONTROL_FD"@, "0"@),
        ("DSH_DESKTOP_NODE_EXECUTABLE"@, paths.node),
        ("PATH"@, paths.node_bin + ":"@ + inherited_path),
    ]
}

/// `launch` is the launch for these roots and this inherited PATH.
pub open spec fn launches(
    launch: HostLaunch,
    paths: crate::paths::ShellPathsView,
    inherited_path: Seq<char>,
) -> bool {
    &&& launch.program@ == paths.node
    &&& launch.args@.map_values(|arg: String| arg@) == host_args(paths)
    &&& launch.env@.map_values(|pair: (String, String)| (pair.0@, pair.1@)) == host_env(
        paths,
        inherited_path,
    )
}

/// The Host entry in the development project.
pub fn host_entry(paths: &ShellPaths) -> (entry: String)
    ensures
        entry@ == entry_in(paths@.dsh_dir),
{
    join(paths.dsh_dir.as_str(), "node_modules/@deepseek-ai/dsh-desktop-host/lib/index.js")
}

/// How to launch the Host for `paths` under an inherited PATH.
pub fn host_launch(paths: &ShellPaths, inherited_path: &str) -> (launch: HostLaunch)
    ensures
        launches(launch, paths@, inherited_path@),
{
    let mut args: Vec<String> = Vec::new();
    args.push("--expose-internals".to_owned());
    args.push(host_entry(paths));
    args.push(paths.dsh_dir.clone());
    args.push(paths.profile.clone());
    args.push(paths.primary_runtime.clone());
    args.push("link".to_owned());
    args.push(paths.pnpm.clone());
    args.push(paths.node_bin.clone());
    let mut path = paths.node_bin.clone();
    path.append(":");
    path.append(inherited_path);
    let mut env: Vec<(String, String)> = Vec::new();
    env.push(("DSH_HOME".to_owned(), paths.home.clone()));
    env.push(("DSH_DESKTOP_HOST_CONTROL".to_owned(), "stdio".to_owned()));
    env.push(("DSH_DESKTOP_HOST_CONTROL_FD".to_owned(), "0".to_owned()));
    env.push(("DSH_DESKTOP_NODE_EXECUTABLE".to_owned(), paths.node.clone()));
    env.push(("PATH".to_owned(), path));
    let launch = HostLaunch { program: paths.node.clone(), args, env };
    assert(launch.args@.map_values(|arg: String| arg@) =~= host_args(paths@));
    assert(launch.env@.map_values(|pair: (String, String)| (pair.0@, pair.1@)) =~= host_env(
        paths@,
        inherited_path@,
    ));
    launch
}

/// What happened in the supervision of the Host.
pub enum SuperviseEvent {
    /// Whether the Host entry is a file.
    Entry { is_file: bool },
    /// The control socket pair could not be made.
    PairFailed(String),
    SpawnFailed(String),
    /// The control socket could not be cloned for reading.
    CloneFailed(String),
    Spawned,
    /// Reading control events failed.
    EventsFailed(String),
    /// There are no more control events. `stopping` tells whether a stop was
    /// asked for and `failed` whether a failure was published.
    EventsEnded { stopping: bool, failed: bool },
    /// There is no child to wait for.
    ChildGone,
    WaitFailed(String),
    Exited { status: String, stderr: String },
}

/// What the supervision of the Host needs next.
pub enum SuperviseStep {
    /// This process, launched over a control socket.
    Launch(HostLaunch),
    /// The control events, one line at a time, for [`read_host_events`].
    ReadEvents,
    /// The exit of the Host: its control socket reached its end.
    AwaitExit,
    /// Nothing: supervision is over.
    Finished { error: Option<String> },
}

/// The step is the end of supervision, without an error.
pub open spec fn ended(step: SuperviseStep) -> bool {
    step matches SuperviseStep::Finished { error } && error is None
}

/// The step is the end of supervision, with this error.
pub open spec fn ended_with(step: SuperviseStep, message: Seq<char>) -> bool {
    step matches SuperviseStep::Finished { error: Some(found) } && found@ == message
}

/// What an exit of the Host is reported with.
pub open spec fn exit_report(status: Seq<char>, stderr: Seq<char>) -> Seq<char> {
    let tail = crate::text::trimmed(stderr);
    "Desktop Host exited with "@ + status + (if tail.len() == 0 {
        seq![]
    } else {
        ": "@ + tail
    })
}

/// What an exit of the Host is reported with.
pub fn exit_message(status: &str, stderr: &str) -> (message: String)
    ensures
        message@ == exit_report(status@, stderr@),
{
    let mut message: String = "Desktop Host exited with ".to_owned();
    message.append(status);
    let tail = trim(stderr);
    if !tail.as_str().is_empty() {
        let mut suffix: String = ": ".to_owned();
        suffix.append(tail.as_str());
        message.append(suffix.as_str());
    } else {
        assert(message@ + seq![] =~= message@);
    }
    message
}

/// `head` and what follows it.
fn message_of(head: &str, rest: &str) -> (message: String)
    ensures
        message@ == head@ + rest@,
{
    let mut message = head.to_owned();
    message.append(rest);
    message
}

fn finished_with(message: String) -> (step: SuperviseStep)
    ensures
        ended_with(step, message@),
{
    SuperviseStep::Finished { error: Some(message) }
}

/// One step of the supervision of the Host.
pub fn supervise(paths: &ShellPaths, inherited_path: &str, event: SuperviseEvent) -> (step:
    SuperviseStep)
    ensures
        match event {
            SuperviseEvent::Entry { is_file } => if is_file {
                step matches SuperviseStep::Launch(launch) && launches(
                    launch,
                    paths@,
                    inherited_path@,
                )
            } else {
                ended_with(
                    step,
                    "dsh desktop tauri: missing Desktop Host entry "@ + entry_in(paths@.dsh_dir),
                )
            },
            SuperviseEvent::PairFailed(reason) => ended_with(
                step,
                "control socketpair: "@ + reason@,
            ),
            SuperviseEvent::SpawnFailed(reason) => ended_with(
                step,
                "spawning Desktop Host with "@ + paths@.node + ": "@ + reason@,
            ),
            SuperviseEvent::CloneFailed(reason) => ended_with(
                step,
                "cloning control socket: "@ + reason@,
            ),
            SuperviseEvent::Spawned => step is ReadEvents,
            SuperviseEvent::EventsFailed(message) => ended_with(step, message@),
            SuperviseEvent::EventsEnded { stopping, failed } => if stopping || failed {
                ended(step)
            } else {
                step is AwaitExit
            },
            SuperviseEvent::ChildGone => ended(step),
            SuperviseEvent::WaitFailed(reason) => ended_with(
                step,
                "waiting for Desktop Host exit: "@ + reason@,
            ),
            SuperviseEvent::Exited { status, stderr } => ended_with(
                step,
                exit_report(status@, stderr@),
            ),
        },
{
    match event {
        SuperviseEvent::Entry { is_file } => {
            if is_file {
                SuperviseStep::Launch(host_launch(paths, inherited_path))
            } else {
                finished_with(
                    message_of(
                        "dsh desktop tauri: missing Desktop Host entry ",
                        host_entry(paths).as_str(),
                    ),
                )
            }
        },
        SuperviseEvent::PairFailed(reason) => finished_with(
            message_of("control socketpair: ", reason.as_str()),
        ),
        SuperviseEvent::SpawnFailed(reason) => {
            let mut message = message_of("spawning Desktop Host with ", paths.node.as_str());
            message.append(": ");
            message.append(reason.as_str());
            finished_with(message)
        },
        SuperviseEvent::CloneFailed(reason) => finished_with(
            message_of("cloning control socket: ", reason.as_str()),
        ),
        SuperviseEvent::Spawned => SuperviseStep::ReadEvents,
        SuperviseEvent::EventsFailed(message) => finished_with(message),
        SuperviseEvent::EventsEnded { stopping, failed } => {
            if stopping || failed {
                SuperviseStep::Finished { error: None }
            } else {
                SuperviseStep::AwaitExit
            }
        },
        SuperviseEvent::ChildGone => SuperviseStep::Finished { error: None },
        SuperviseEvent::WaitFailed(reason) => finished_with(
            message_of("waiting for Desktop Host exit: ", reason.as_str()),
        ),
        SuperviseEvent::Exited { status, stderr } => finished_with(
            exit_message(status.as_str(), stderr.as_str()),
        ),
    }
}

/// What is published and shown when supervision ends with an error: nothing
/// once the Host was ready.
pub fn supervision_failed(startup: &Startup, error: &str) -> (failure: Option<Startup>)
    ensures
        failure is None <==> startup is Ready,
        failure matches Some(published) ==> published@ == StartupView::Failed(error@),
{
    match startup {
        Startup::Ready { .. } => None,
        _ => Some(Startup::Failed(error.to_owned())),
    }
}

/// What the shell reads in a control frame of the Host.
pub struct ControlFrame {
    pub kind: Option<String>,
    pub url: Option<String>,
    pub message: Option<String>,
    pub injections: Option<serde_json::Value>,
}

/// The texts of a [`ControlFrame`].
pub struct ControlView {
    pub kind: Option<Seq<char>>,
    pub url: Option<Seq<char>>,
    pub message: Option<Seq<char>>,
    pub injections: Option<JsonView>,
}

impl View for ControlFrame {
    type V = ControlView;

    open spec fn view(&self) -> ControlView {
        ControlView {
            kind: crate::paths::optional_text(self.kind),
            url: crate::paths::optional_text(self.url),
            message: crate::paths::optional_text(self.message),
            injections: match self.injections {
                Some(table) => Some(crate::json::json_view(table)),
                None => None,
            },
        }
    }
}

/// What a control frame asks for.
pub enum ControlStep {
    /// Nothing: go on with the next line.
    Continue,
    /// A request to `url`, its reply for [`host_ready`].
    Authenticate { url: String, injections: serde_json::Value },
    /// The failure published, the message shown, and no more lines read.
    Fatal { failure: String, shown: String },
    /// An end of reading with this error.
    Fail(String),
}

/// The texts of a [`ControlStep`].
pub enum ControlStepView {
    Continue,
    Authenticate { url: Seq<char>, injections: JsonView },
    Fatal { failure: Seq<char>, shown: Seq<char> },
    Fail(Seq<char>),
}

impl View for ControlStep {
    type V = ControlStepView;

    open spec fn view(&self) -> ControlStepView {
        match *self {
            ControlStep::Continue => ControlStepView::Continue,
            ControlStep::Authenticate { url, injections } => ControlStepView::Authenticate {
                url: url@,
                injections: crate::json::json_view(injections),
            },
            ControlStep::Fatal { failure, shown } => ControlStepView::Fatal {
                failure: failure@,
                shown: shown@,
            },
            ControlStep::Fail(message) => ControlStepView::Fail(message@),
        }
    }
}

/// The control frame that a JSON document is.
pub open spec fn frame_of(document: JsonView) -> ControlView {
    ControlView {
        kind: document.text_member("type"@),
        url: document.text_member("url"@),
        message: document.text_member("message"@),
        injections: document.member("injections"@),
    }
}

/// Reading ends with this line, which is no valid frame.
pub open spec fn invalid_frame(line: Seq<char>) -> ControlStepView {
    ControlStepView::Fail("Desktop Host sent an invalid control frame: "@ + line)
}

/// What the control frame in `line` asks for. A reply to `shutdown` or
/// `update-tasks` needs no action; a frame of any other kind is invalid.
pub open spec fn frame_step(frame: ControlView, line: Seq<char>) -> ControlStepView {
    if frame.kind == Some("ready"@) {
        match frame.url {
            Some(url) => ControlStepView::Authenticate {
                url,
                injections: match frame.injections {
                    Some(table) => table,
                    None => JsonView::List(seq![]),
                },
            },
            None => ControlStepView::Fail("Desktop Host ready frame has no url"@),
        }
    } else if frame.kind == Some("fatal"@) {
        let message = match frame.message {
            Some(message) => message,
            None => "Desktop Host reported a fatal error"@,
        };
        ControlStepView::Fatal { failure: "Desktop Host: "@ + message, shown: message }
    } else if frame.kind == Some("shutdown-complete"@) || frame.kind == Some("update-tasks"@) {
        ControlStepView::Continue
    } else {
        invalid_frame(line)
    }
}

/// What a line of the control socket asks for.
pub open spec fn line_step(line: Seq<char>) -> ControlStepView {
    if crate::text::trimmed(line).len() == 0 {
        ControlStepView::Continue
    } else {
        match crate::json::json_parse(line) {
            Some(document) => frame_step(frame_of(document), line),
            None => invalid_frame(line),
        }
    }
}

/// The control frame that a JSON document is.
fn control_frame(document: &serde_json::Value) -> (frame: ControlFrame)
    ensures
        frame@ == frame_of(crate::json::json_view(*document)),
{
    let injections: Option<serde_json::Value> = match member(document, "injections") {
        Some(table) => Some(copy(table)),
        None => None,
    };
    ControlFrame {
        kind: text_member(document, "type"),
        url: text_member(document, "url"),
        message: text_member(document, "message"),
        injections,
    }
}

/// The end of reading with a line that is no valid frame.
fn invalid(line: &str) -> (step: ControlStep)
    ensures
        step@ == invalid_frame(line@),
{
    ControlStep::Fail(message_of("Desktop Host sent an invalid control frame: ", line))
}

/// What the control frame in `line` asks for.
pub fn control_event(frame: ControlFrame, line: &str) -> (step: ControlStep)
    ensures
        step@ == frame_step(frame@, line@),
{
    let kind = match frame.kind {
        Some(kind) => kind,
        None => {
            return invalid(line);
        },
    };
    if same_text(kind.as_str(), "ready") {
        match frame.url {
            Some(url) => {
                let injections: serde_json::Value = match frame.injections {
                    Some(table) => table,
                    None => empty_list(),
                };
                ControlStep::Authenticate { url, injections }
            },
            None => ControlStep::Fail("Desktop Host ready frame has no url".to_owned()),
        }
    } else if same_text(kind.as_str(), "fatal") {
        let message: String = match frame.message {
            Some(message) => message,
            None => "Desktop Host reported a fatal error".to_owned(),
        };
        ControlStep::Fatal {
            failure: message_of("Desktop Host: ", message.as_str()),
            shown: message,
        }
    } else if same_text(kind.as_str(), "shutdown-complete") || same_text(
        kind.as_str(),
        "update-tasks",
    ) {
        ControlStep::Continue
    } else {
        invalid(line)
    }
}

/// What one line read from the control socket asks for, or the error that
/// reading it gave.
pub fn read_host_events(line: Result<String, String>) -> (step: ControlStep)
    ensures
        match line {
            Ok(text) => step@ == line_step(text@),
            Err(reason) => step@ == ControlStepView::Fail("control socket: "@ + reason@),
        },
{
    let text = match line {
        Ok(text) => text,
        Err(reason) => {
            return ControlStep::Fail(message_of("control socket: ", reason.as_str()));
        },
    };
    if trim(text.as_str()).as_str().is_empty() {
        return ControlStep::Continue;
    }
    match parse(text.as_str()) {
        Some(document) => control_event(control_frame(&document), text.as_str()),
        None => invalid(text.as_str()),
    }
}

/// What came of the request to the Host launch URL.
pub enum AuthReply {
    /// It could not be sent, for this reason.
    Failed(String),
    Answered { status: u16, headers: http::HeaderMap<http::HeaderValue> },
}

/// Whether the values of `set-cookie` begin with one that can be read.
pub open spec fn offers_cookie(cookies: Seq<crate::headers::FieldValue>) -> bool {
    cookies.len() > 0 && crate::headers::all_visible(cookies[0].0)
}

/// The cookie pair of a `set-cookie` value: what stands before its attributes.
pub open spec fn cookie_pair(value: Seq<u8>) -> Seq<char> {
    crate::text::before(crate::headers::byte_text(value), ';')
}

/// The cookie that a reply gives, or why it gives none.
pub open spec fn cookie_in(reply: AuthReply) -> Result<Seq<char>, Seq<char>> {
    match reply {
        AuthReply::Failed(reason) => Err(
            "Desktop Host authentication request failed: "@ + reason@,
        ),
        AuthReply::Answered { status, headers } => {
            let cookies = crate::headers::header_values(headers, "set-cookie"@);
            if status == 303 && offers_cookie(cookies) {
                Ok(cookie_pair(cookies[0].0))
            } else {
                Err(
                    "Desktop Host authentication failed ("@ + crate::text::decimal_text(
                        status as nat,
                    ) + ")"@,
                )
            }
        },
    }
}

/// What stands before a mark in a text of visible bytes is such a text too.
proof fn lemma_pair_safe(value: Seq<u8>, stop: char)
    requires
        crate::headers::all_visible(value),
    ensures
        crate::headers::field_safe(crate::text::before(crate::headers::byte_text(value), stop)),
{
    lemma_before_is_prefix(crate::headers::byte_text(value), stop);
    let kept = crate::text::before(crate::headers::byte_text(value), stop);
    let bytes = value.take(kept.len() as int);
    assert forall|i: int| 0 <= i < bytes.len() implies crate::headers::visible_byte(
        #[trigger] bytes[i],
    ) by {
        assert(crate::headers::visible_byte(value[i]));
    }
    crate::headers::lemma_byte_text(bytes);
    assert(crate::headers::byte_text(bytes) =~= kept);
}

proof fn lemma_before_is_prefix(text: Seq<char>, stop: char)
    ensures
        crate::text::before(text, stop).len() <= text.len(),
        crate::text::before(text, stop) == text.take(crate::text::before(text, stop).len() as int),
    decreases text.len(),
{
    let kept = crate::text::before(text, stop);
    if text.len() == 0 || text[0] == stop {
        assert(kept =~= text.take(0));
    } else {
        lemma_before_is_prefix(text.drop_first(), stop);
        assert(kept =~= text.take(kept.len() as int));
    }
}

/// The authority-bound cookie in the reply to the Host launch URL: expect the
/// 303 redirect and keep only the cookie pair. A cookie that is found can
/// stand as a header value.
pub fn authenticate(reply: &AuthReply) -> (cookie: Result<String, String>)
    ensures
        match cookie {
            Ok(pair) => cookie_in(*reply) == Ok::<Seq<char>, Seq<char>>(pair@)
                && crate::headers::field_safe(pair@),
            Err(message) => cookie_in(*reply) == Err::<Seq<char>, Seq<char>>(message@),
        },
{
    match reply {
        AuthReply::Failed(reason) => Err(
            message_of("Desktop Host authentication request failed: ", reason.as_str()),
        ),
        AuthReply::Answered { status, headers } => {
            proof {
                reveal_strlit("set-cookie");
            }
            let cookie: Option<String> = match first_value(headers, "set-cookie") {
                Some(value) => {
                    proof {
                        if crate::headers::all_visible(value@) {
                            lemma_pair_safe(value@, ';');
                        }
                    }
                    match visible_text(&value) {
                        Some(text) => Some(text_before(text.as_str(), ';')),
                        None => None,
                    }
                },
                None => None,
            };
            if let Some(pair) = cookie {
                if *status == 303 {
                    return Ok(pair);
                }
            }
            let mut message = message_of(
                "Desktop Host authentication failed (",
                decimal(*status).as_str(),
            );
            message.append(")");
            Err(message)
        },
    }
}

/// The origin of a URL, or why it has none.
pub open spec fn origin_in(url: crate::url::UrlView) -> Result<Seq<char>, Seq<char>> {
    match url.port {
        Some(port) => Ok(
            url.scheme + "://"@ + (match url.host {
                Some(host) => host,
                None => "127.0.0.1"@,
            }) + ":"@ + crate::text::decimal_text(port as nat),
        ),
        None => Err("Desktop Host url has no port"@),
    }
}

/// The origin of a URL text, or why it has none.
pub open spec fn origin_for(url: Seq<char>) -> Result<Seq<char>, Seq<char>> {
    match crate::url::url_parse(url) {
        Ok(parts) => origin_in(parts),
        Err(reason) => Err("Desktop Host url: "@ + reason),
    }
}

/// The origin of a URL: scheme, host and port.
pub fn origin_of_parts(url: &UrlParts) -> (origin: Result<String, String>)
    ensures
        match origin {
            Ok(text) => origin_in(url@) == Ok::<Seq<char>, Seq<char>>(text@),
            Err(message) => origin_in(url@) == Err::<Seq<char>, Seq<char>>(message@),
        },
{
    match url.port {
        Some(port) => {
            let mut origin = message_of(url.scheme.as_str(), "://");
            match &url.host {
                Some(host) => origin.append(host.as_str()),
                None => origin.append("127.0.0.1"),
            }
            origin.append(":");
            origin.append(decimal(port).as_str());
            Ok(origin)
        },
        None => Err("Desktop Host url has no port".to_owned()),
    }
}

/// The origin of a URL text.
pub fn origin_of(url: &str) -> (origin: Result<String, String>)
    ensures
        match origin {
            Ok(text) => origin_for(url@) == Ok::<Seq<char>, Seq<char>>(text@),
            Err(message) => origin_for(url@) == Err::<Seq<char>, Seq<char>>(message@),
        },
{
    match read_url(url) {
        Ok(parts) => origin_of_parts(&parts),
        Err(reason) => Err(message_of("Desktop Host url: ", reason.as_str())),
    }
}

/// What a ready Host comes to: the startup to publish, or why there is none.
/// The reply is looked at before the URL.
pub open spec fn ready_in(url: Seq<char>, injections: JsonView, reply: AuthReply) -> Result<
    StartupView,
    Seq<char>,
> {
    match cookie_in(reply) {
        Ok(cookie) => match origin_for(url) {
            Ok(host_origin) => Ok(StartupView::Ready { host_origin, cookie, injections }),
            Err(message) => Err(message),
        },
        Err(message) => Err(message),
    }
}

/// What a ready Host comes to, from the cookie of its reply and the origin of
/// its URL: the reason why there is no cookie counts ahead of that why there
/// is no origin.
pub fn ready_startup(
    cookie: Result<String, String>,
    origin: Result<String, String>,
    injections: serde_json::Value,
) -> (startup: Result<Startup, String>)
    ensures
        startup == (match (cookie, origin) {
            (Ok(cookie), Ok(host_origin)) => Ok::<Startup, String>(
                Startup::Ready { host_origin, cookie, injections },
            ),
            (Ok(_), Err(message)) => Err(message),
            (Err(message), _) => Err(message),
        }),
{
    match (cookie, origin) {
        (Ok(cookie), Ok(host_origin)) => Ok(Startup::Ready { host_origin, cookie, injections }),
        (Ok(_), Err(message)) => Err(message),
        (Err(message), _) => Err(message),
    }
}

/// What a ready Host comes to, from the reply to its launch URL. The injection
/// table is kept as it is, and the cookie can stand as a header value.
pub fn host_ready(url: &str, injections: serde_json::Value, reply: &AuthReply) -> (startup: Result<
    Startup,
    String,
>)
    ensures
        match startup {
            Ok(ready) => ready_in(url@, crate::json::json_view(injections), *reply) == Ok::<
                StartupView,
                Seq<char>,
            >(ready@) && (ready matches Startup::Ready { cookie, .. } && crate::headers::field_safe(
                cookie@,
            )),
            Err(message) => ready_in(url@, crate::json::json_view(injections), *reply) == Err::<
                StartupView,
                Seq<char>,
            >(message@),
        },
{
    ready_startup(authenticate(reply), origin_of(url), injections)
}

/// All that the lines of stderr say.
pub open spec fn written(lines: Seq<Seq<char>>) -> Seq<char>
    decreases lines.len(),
{
    if lines.len() == 0 {
        seq![]
    } else {
        written(lines.drop_last()) + lines.last() + "\n"@
    }
}

/// What is kept of stderr after these lines.
pub open spec fn tail_of(lines: Seq<Seq<char>>) -> Seq<char>
    decreases lines.len(),
{
    if lines.len() == 0 {
        seq![]
    } else {
        tail_with(tail_of(lines.drop_last()), lines.last())
    }
}

/// However many lines the Host writes to stderr, and however long they are,
/// exactly the last characters of all of them are retained.
pub proof fn law_tail_is_the_end(lines: Seq<Seq<char>>)
    ensures
        tail_of(lines) == crate::text::last_chars(written(lines), MAX_STDERR_CHARS as nat),
    decreases lines.len(),
{
    if lines.len() > 0 {
        law_tail_is_the_end(lines.drop_last());
        let earlier = written(lines.drop_last());
        let kept = tail_of(lines.drop_last());
        let line = lines.last();
        assert(tail_of(lines) =~= crate::text::last_chars(
            earlier + line + "\n"@,
            MAX_STDERR_CHARS as nat,
        ));
    }
}

/// Stopping acts once: behind a request to stop, whatever waits report in
/// between, another request does nothing.
pub proof fn law_stop_acts_once(slot: HostSlot, exited: bool)
    ensures
        stop_asked(stop_asked(slot).0).1 is Done,
        stop_asked(slot).0 !is Running,
        slot !is Running ==> stop_waited(slot, exited).0 !is Running,
        slot !is Running ==> stop_asked(slot) == (slot, StopAction::Done),
{
}

/// A running Host is stopped in this order and no other: a shutdown request,
/// a termination signal where it has not exited by then, and a kill where it
/// still has not. Nothing follows an exit or the kill.
pub proof fn law_stop_escalates(first: bool, second: bool, third: bool)
    ensures
        ({
            let (asked, request) = stop_asked(HostSlot::Running);
            let (signalled, signal) = stop_waited(asked, first);
            let (killed, kill) = stop_waited(signalled, second);
            &&& request == StopAction::RequestShutdown { wait_ms: SHUTDOWN_GRACE_MS }
            &&& signal == (if first {
                StopAction::Done
            } else {
                StopAction::Terminate { wait_ms: TERMINATE_GRACE_MS }
            })
            &&& !first ==> kill == (if second {
                StopAction::Done
            } else {
                StopAction::Kill
            })
            &&& !first && !second ==> stop_waited(killed, third) == (killed, StopAction::Done)
        }),
{
}

proof fn lemma_before_holds_no_stop(text: Seq<char>, stop: char)
    ensures
        !crate::text::before(text, stop).contains(stop),
    decreases text.len(),
{
    let kept = crate::text::before(text, stop);
    if !(text.len() == 0 || text[0] == stop) {
        lemma_before_holds_no_stop(text.drop_first(), stop);
        let rest = crate::text::before(text.drop_first(), stop);
        if kept.contains(stop) {
            let k = choose|k: int| 0 <= k < kept.len() && kept[k] == stop;
            assert(k > 0);
            assert(rest[k - 1] == stop);
        }
    }
}

/// Only the cookie pair is kept of what the Host sets: it opens the value, and
/// no attribute follows it.
pub proof fn law_cookie_is_a_pair(reply: AuthReply)
    ensures
        cookie_in(reply) matches Ok(pair) ==> {
            &&& reply matches AuthReply::Answered { status, headers }
            &&& status == 303
            &&& !pair.contains(';')
            &&& crate::text::begins_with(
                crate::headers::byte_text(
                    crate::headers::header_values(headers, "set-cookie"@)[0].0,
                ),
                pair,
            )
        },
{
    if let AuthReply::Answered { status, headers } = reply {
        let cookies = crate::headers::header_values(headers, "set-cookie"@);
        if status == 303 && offers_cookie(cookies) {
            let text = crate::headers::byte_text(cookies[0].0);
            lemma_before_holds_no_stop(text, ';');
            lemma_before_is_prefix(text, ';');
        }
    }
}

/// The PATH of the Host begins with the private launcher directory, and the
/// rest is the inherited one.
pub proof fn law_launchers_lead_the_path(
    paths: crate::paths::ShellPathsView,
    inherited_path: Seq<char>,
)
    ensures
        host_env(paths, inherited_path).last().0 == "PATH"@,
        crate::text::begins_with(host_env(paths, inherited_path).last().1, paths.node_bin + ":"@),
        host_env(paths, inherited_path).last().1.skip(
            (paths.node_bin + ":"@).len() as int,
        ) == inherited_path,
{
    let front = paths.node_bin + ":"@;
    let whole = front + inherited_path;
    assert(whole.take(front.len() as int) =~= front);
    assert(whole.skip(front.len() as int) =~= inherited_path);
}

/// A ready Host can be reached: its connection is the origin of its launch URL
/// and the cookie of the reply, and that cookie can stand as a header value.
pub proof fn law_ready_host_connects(url: Seq<char>, injections: JsonView, reply: AuthReply)
    ensures
        ready_in(url, injections, reply) matches Ok(startup) ==> {
            &&& crate::state::connection_of(startup) matches Some((origin, cookie))
            &&& origin_for(url) == Ok::<Seq<char>, Seq<char>>(origin)
            &&& cookie_in(reply) == Ok::<Seq<char>, Seq<char>>(cookie)
            &&& crate::headers::field_safe(cookie)
        },
{
    if let AuthReply::Answered { status, headers } = reply {
        let cookies = crate::headers::header_values(headers, "set-cookie"@);
        if offers_cookie(cookies) {
            lemma_pair_safe(cookies[0].0, ';');
        }
    }
}

/// The injection table of a ready frame reaches the page as the Host wrote it.
pub proof fn law_injections_pass_through(
    line: Seq<char>,
    document: JsonView,
    url: Seq<char>,
    table: JsonView,
    reply: AuthReply,
    stream_base: Seq<char>,
)
    requires
        crate::text::trimmed(line).len() > 0,
        crate::json::json_parse(line) == Some(document),
        document.text_member("type"@) == Some("ready"@),
        document.text_member("url"@) == Some(url),
        document.member("injections"@) == Some(table),
    ensures
        line_step(line) == (ControlStepView::Authenticate { url, injections: table }),
        ready_in(url, table, reply) matches Ok(startup) ==> {
            &&& crate::state::boot_answer(startup, stream_base) matches Some(Ok(answer))
            &&& answer.member("injections"@) == Some(table)
        },
{
    if let Ok(StartupView::Ready { host_origin, cookie, injections }) = ready_in(
        url,
        table,
        reply,
    ) {
        crate::state::law_boot_tells_no_credential(
            (host_origin, cookie),
            (host_origin, cookie),
            table,
            stream_base,
        );
    }
}

/// Only frames of the protocol are taken: a line that is not blank and not one
/// of its four kinds ends the reading with an error that names the line.
pub proof fn law_foreign_frames_are_fatal(line: Seq<char>)
    requires
        crate::text::trimmed(line).len() > 0,
        crate::json::json_parse(line) matches Some(document) ==> {
            let kind = document.text_member("type"@);
            &&& kind != Some("ready"@)
            &&& kind != Some("fatal"@)
            &&& kind != Some("shutdown-complete"@)
            &&& kind != Some("update-tasks"@)
        },
    ensures
        line_step(line) == ControlStepView::Fail(
            "Desktop Host sent an invalid control frame: "@ + line,
        ),
{
}

} // verus!
