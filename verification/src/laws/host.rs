//! Laws of Host supervision.

use vstd::prelude::*;

use crate::host::{
    authenticate, control_event, exit_message, host_entry, host_launch, host_ready, origin_of,
    origin_of_parts, read_host_events, supervise, supervision_failed, wait_exit, AuthReply,
    ControlFrame, ControlStep, ExitPoll, HostHandle, HostLaunch, StderrTail, StopAction,
    SuperviseEvent, SuperviseStep, WaitEvent, WaitStep,
};
use crate::json::JsonView;
use crate::paths::ShellPaths;
use crate::state::Startup;
use crate::text::decimal;
use crate::url::UrlParts;

verus! {

/// The Host entry stands in the development project.
pub proof fn law_the_entry_is_in_the_project(paths: &ShellPaths, entry: String)
    requires
        call_ensures(host_entry, (paths,), entry),
        paths.dsh_dir@.len() > 0,
        paths.dsh_dir@.last() != '/',
    ensures
        entry@ == paths.dsh_dir@ + seq!['/']
            + "node_modules/@deepseek-ai/dsh-desktop-host/lib/index.js"@,
{
    reveal_strlit("node_modules/@deepseek-ai/dsh-desktop-host/lib/index.js");
    assert(entry@ =~= paths.dsh_dir@ + seq!['/']
        + "node_modules/@deepseek-ai/dsh-desktop-host/lib/index.js"@);
}

/// The launch is Node on the entry with the agreed eight arguments and five
/// variables, each of them from the roots it belongs to.
pub open spec fn agreed_launch(
    paths: ShellPaths,
    inherited_path: Seq<char>,
    launch: HostLaunch,
) -> bool {
    &&& launch.program@ == paths.node@
    &&& launch.args@.len() == 8
    &&& launch.args@[0]@ == "--expose-internals"@
    &&& paths.dsh_dir@.len() > 0 && paths.dsh_dir@.last() != '/' ==> launch.args@[1]@
        == paths.dsh_dir@ + seq!['/'] + "node_modules/@deepseek-ai/dsh-desktop-host/lib/index.js"@
    &&& launch.args@[2]@ == paths.dsh_dir@
    &&& launch.args@[3]@ == paths.profile@
    &&& launch.args@[4]@ == paths.primary_runtime@
    &&& launch.args@[5]@ == "link"@
    &&& launch.args@[6]@ == paths.pnpm@
    &&& launch.args@[7]@ == paths.node_bin@
    &&& launch.env@.len() == 5
    &&& launch.env@[0].0@ == "DSH_HOME"@ && launch.env@[0].1@ == paths.home@
    &&& launch.env@[1].0@ == "DSH_DESKTOP_HOST_CONTROL"@ && launch.env@[1].1@ == "stdio"@
    &&& launch.env@[2].0@ == "DSH_DESKTOP_HOST_CONTROL_FD"@ && launch.env@[2].1@ == "0"@
    &&& launch.env@[3].0@ == "DSH_DESKTOP_NODE_EXECUTABLE"@ && launch.env@[3].1@ == paths.node@
    &&& launch.env@[4].0@ == "PATH"@ && launch.env@[4].1@ == paths.node_bin@ + seq![':']
        + inherited_path
}

proof fn lemma_agreed(paths: ShellPaths, inherited_path: Seq<char>, launch: HostLaunch)
    requires
        crate::host::launches(launch, paths@, inherited_path),
    ensures
        agreed_launch(paths, inherited_path, launch),
{
    reveal_strlit("node_modules/@deepseek-ai/dsh-desktop-host/lib/index.js");
    reveal_strlit(":");
    assert(":"@ =~= seq![':']);
    let args = launch.args@.map_values(|arg: String| arg@);
    let env = launch.env@.map_values(|pair: (String, String)| (pair.0@, pair.1@));
    assert(args.len() == 8 && env.len() == 5);
    assert forall|i: int| 0 <= i < 8 implies #[trigger] launch.args@[i]@ == args[i] by {}
    assert forall|i: int| 0 <= i < 5 implies #[trigger] launch.env@[i].0@ == env[i].0
        && launch.env@[i].1@ == env[i].1 by {}
    let tail = "node_modules/@deepseek-ai/dsh-desktop-host/lib/index.js"@;
    assert(paths.dsh_dir@.push('/') + tail =~= paths.dsh_dir@ + seq!['/'] + tail);
}

/// The launch is the agreed one.
pub proof fn law_the_launch_is_agreed(paths: &ShellPaths, inherited_path: &str, launch: HostLaunch)
    requires
        call_ensures(host_launch, (paths, inherited_path), launch),
    ensures
        agreed_launch(*paths, inherited_path@, launch),
{
    lemma_agreed(*paths, inherited_path@, launch);
}

/// Supervision launches the agreed process where the entry is there, then reads
/// its events, and waits for its exit where nobody stopped it and it did not
/// fail.
pub proof fn law_supervision_proceeds(
    paths: &ShellPaths,
    inherited_path: &str,
    stopping: bool,
    failed: bool,
    entered: SuperviseStep,
    spawned: SuperviseStep,
    ended: SuperviseStep,
    gone: SuperviseStep,
)
    requires
        call_ensures(
            supervise,
            (paths, inherited_path, SuperviseEvent::Entry { is_file: true }),
            entered,
        ),
        call_ensures(supervise, (paths, inherited_path, SuperviseEvent::Spawned), spawned),
        call_ensures(
            supervise,
            (paths, inherited_path, SuperviseEvent::EventsEnded { stopping, failed }),
            ended,
        ),
        call_ensures(supervise, (paths, inherited_path, SuperviseEvent::ChildGone), gone),
    ensures
        entered matches SuperviseStep::Launch(launch) && agreed_launch(
            *paths,
            inherited_path@,
            launch,
        ),
        spawned is ReadEvents,
        !stopping && !failed ==> ended is AwaitExit,
        stopping || failed ==> (ended matches SuperviseStep::Finished { error } && error is None),
        gone matches SuperviseStep::Finished { error } && error is None,
{
    if let SuperviseStep::Launch(launch) = entered {
        lemma_agreed(*paths, inherited_path@, launch);
    }
}

/// `step` is the end of supervision with this message.
pub open spec fn finished_saying(step: SuperviseStep, message: Seq<char>) -> bool {
    step matches SuperviseStep::Finished { error } && (error matches Some(text) && text@ == message)
}

/// Whatever goes wrong in supervision is reported by what it was and with its
/// whole reason.
pub proof fn law_supervision_reports(
    paths: &ShellPaths,
    inherited_path: &str,
    reason: String,
    missing: SuperviseStep,
    pair: SuperviseStep,
    spawn: SuperviseStep,
    clone: SuperviseStep,
    events: SuperviseStep,
    wait: SuperviseStep,
)
    requires
        call_ensures(
            supervise,
            (paths, inherited_path, SuperviseEvent::Entry { is_file: false }),
            missing,
        ),
        call_ensures(supervise, (paths, inherited_path, SuperviseEvent::PairFailed(reason)), pair),
        call_ensures(
            supervise,
            (paths, inherited_path, SuperviseEvent::SpawnFailed(reason)),
            spawn,
        ),
        call_ensures(
            supervise,
            (paths, inherited_path, SuperviseEvent::CloneFailed(reason)),
            clone,
        ),
        call_ensures(
            supervise,
            (paths, inherited_path, SuperviseEvent::EventsFailed(reason)),
            events,
        ),
        call_ensures(supervise, (paths, inherited_path, SuperviseEvent::WaitFailed(reason)), wait),
        paths.dsh_dir@.len() > 0,
        paths.dsh_dir@.last() != '/',
    ensures
        finished_saying(
            missing,
            "dsh desktop tauri: missing Desktop Host entry "@ + (paths.dsh_dir@ + seq!['/']
                + "node_modules/@deepseek-ai/dsh-desktop-host/lib/index.js"@),
        ),
        finished_saying(pair, "control socketpair: "@ + reason@),
        finished_saying(
            spawn,
            "spawning Desktop Host with "@ + paths.node@ + ": "@ + reason@,
        ),
        finished_saying(clone, "cloning control socket: "@ + reason@),
        finished_saying(events, reason@),
        finished_saying(wait, "waiting for Desktop Host exit: "@ + reason@),
{
    reveal_strlit("node_modules/@deepseek-ai/dsh-desktop-host/lib/index.js");
    let tail = "node_modules/@deepseek-ai/dsh-desktop-host/lib/index.js"@;
    assert(paths.dsh_dir@.push('/') + tail =~= paths.dsh_dir@ + seq!['/'] + tail);
}

proof fn lemma_exit(status: Seq<char>, left: Seq<char>, core: Seq<char>, right: Seq<char>)
    requires
        forall|i: int| 0 <= i < left.len() ==> crate::text::is_white_space(#[trigger] left[i]),
        forall|i: int| 0 <= i < right.len() ==> crate::text::is_white_space(#[trigger] right[i]),
        core.len() > 0 ==> !crate::text::is_white_space(core[0])
            && !crate::text::is_white_space(core.last()),
    ensures
        crate::host::exit_report(status, left + core + right) == (if core.len() == 0 {
            "Desktop Host exited with "@ + status
        } else {
            "Desktop Host exited with "@ + status + ": "@ + core
        }),
{
    crate::laws::text::lemma_trimmed(left, core, right);
    assert(crate::host::exit_report(status, left + core + right) =~= (if core.len() == 0 {
        "Desktop Host exited with "@ + status
    } else {
        "Desktop Host exited with "@ + status + ": "@ + core
    }));
}

/// An exit is reported with its status and with all of what stderr says between
/// its outer white space, where it says anything.
pub proof fn law_exits_are_reported_whole(
    paths: &ShellPaths,
    inherited_path: &str,
    status: String,
    stderr: String,
    left: Seq<char>,
    core: Seq<char>,
    right: Seq<char>,
    step: SuperviseStep,
)
    requires
        call_ensures(
            supervise,
            (paths, inherited_path, SuperviseEvent::Exited { status, stderr }),
            step,
        ),
        stderr@ == left + core + right,
        forall|i: int| 0 <= i < left.len() ==> crate::text::is_white_space(#[trigger] left[i]),
        forall|i: int| 0 <= i < right.len() ==> crate::text::is_white_space(#[trigger] right[i]),
        core.len() > 0 ==> !crate::text::is_white_space(core[0])
            && !crate::text::is_white_space(core.last()),
    ensures
        core.len() == 0 ==> finished_saying(step, "Desktop Host exited with "@ + status@),
        core.len() > 0 ==> finished_saying(
            step,
            "Desktop Host exited with "@ + status@ + ": "@ + core,
        ),
{
    lemma_exit(status@, left, core, right);
}

/// The report of an exit, by itself.
pub proof fn law_exit_messages(
    status: &str,
    stderr: &str,
    left: Seq<char>,
    core: Seq<char>,
    right: Seq<char>,
    message: String,
)
    requires
        call_ensures(exit_message, (status, stderr), message),
        stderr@ == left + core + right,
        forall|i: int| 0 <= i < left.len() ==> crate::text::is_white_space(#[trigger] left[i]),
        forall|i: int| 0 <= i < right.len() ==> crate::text::is_white_space(#[trigger] right[i]),
        core.len() > 0 ==> !crate::text::is_white_space(core[0])
            && !crate::text::is_white_space(core.last()),
    ensures
        core.len() == 0 ==> message@ == "Desktop Host exited with "@ + status@,
        core.len() > 0 ==> message@ == "Desktop Host exited with "@ + status@ + ": "@ + core,
{
    lemma_exit(status@, left, core, right);
}

/// A failure of supervision is published with its whole message, unless the Host
/// was ready.
pub proof fn law_failures_are_published(startup: &Startup, error: &str, failure: Option<Startup>)
    requires
        call_ensures(supervision_failed, (startup, error), failure),
    ensures
        startup is Ready <==> failure is None,
        failure matches Some(published) ==> (published matches Startup::Failed(message) && message@
            == error@),
{
}

/// A wait polls as long as some of its budget is left and not longer, sleeps a
/// tenth of a second while the Host runs, and is over with the exit.
pub proof fn law_waits_use_their_budget(
    budget: u64,
    used: u64,
    timed: WaitStep,
    running: WaitStep,
    exited: WaitStep,
    unknown: WaitStep,
)
    requires
        call_ensures(wait_exit, (budget, WaitEvent::Elapsed(used)), timed),
        call_ensures(wait_exit, (budget, WaitEvent::Polled(ExitPoll::Running)), running),
        call_ensures(wait_exit, (budget, WaitEvent::Polled(ExitPoll::Exited)), exited),
        call_ensures(wait_exit, (budget, WaitEvent::Polled(ExitPoll::Unknown)), unknown),
    ensures
        used < budget ==> timed is Poll,
        used >= budget ==> timed == (WaitStep::Finished { exited: false }),
        running == (WaitStep::Sleep { milliseconds: 100 }),
        exited == (WaitStep::Finished { exited: true }),
        unknown == (WaitStep::Finished { exited: true }),
{
}

/// Only a running Host is asked to stop, and that once.
pub proof fn law_stop_asks_a_running_host()
    ensures
        forall|handle: &mut HostHandle, action: StopAction| #[trigger]
            call_ensures(HostHandle::stop_blocking, (handle,), action) ==> {
                &&& (*handle).slot is Running ==> final(handle).slot is Asked && action == (
                StopAction::RequestShutdown { wait_ms: 10000 })
                &&& (*handle).slot !is Running ==> final(handle).slot == (*handle).slot
                    && action is Done
            },
{
}

/// A Host that has not exited in time is terminated, and then killed; nothing
/// follows an exit or the kill.
pub proof fn law_waiting_escalates()
    ensures
        forall|handle: &mut HostHandle, exited: bool, action: StopAction| #[trigger]
            call_ensures(HostHandle::waited, (handle, exited), action) ==> {
                &&& (*handle).slot is Asked && !exited ==> final(handle).slot is Terminated
                    && action == (StopAction::Terminate { wait_ms: 5000 })
                &&& (*handle).slot is Terminated && !exited ==> final(handle).slot is Killed
                    && action is Kill
                &&& exited || (*handle).slot is Killed || (*handle).slot is Empty
                    || (*handle).slot is Running ==> final(handle).slot == (*handle).slot
                    && action is Done
            },
{
}

/// A handle runs once a Host is attached, is empty once it is released, and
/// tells that it stops from the request on.
pub proof fn law_handles_follow_the_host(handle: &HostHandle, fresh: HostHandle, stopping: bool)
    requires
        call_ensures(HostHandle::new, (), fresh),
        call_ensures(HostHandle::stopping, (handle,), stopping),
    ensures
        fresh.slot is Empty,
        stopping <==> handle.slot is Asked || handle.slot is Terminated || handle.slot is Killed,
        forall|each: &mut HostHandle| #[trigger]
            call_ensures(HostHandle::attach, (each,), ()) ==> final(each).slot is Running,
        forall|each: &mut HostHandle| #[trigger]
            call_ensures(HostHandle::release, (each,), ()) ==> final(each).slot is Empty,
{
}

/// Another line of stderr is kept whole behind what was kept, and of all that
/// the last 65536 characters.
pub proof fn law_stderr_keeps_its_end()
    ensures
        forall|tail: &mut StderrTail, line: &str| #[trigger]
            call_ensures(StderrTail::push_line, (tail, line), ()) ==> {
                let whole = (*tail)@ + line@ + seq!['\n'];
                &&& whole.len() <= 65536 ==> final(tail)@ == whole
                &&& whole.len() > 65536 ==> final(tail)@ == whole.skip(whole.len() - 65536)
            },
        forall|tail: StderrTail| #[trigger]
            call_ensures(StderrTail::new, (), tail) ==> tail@.len() == 0,
        forall|tail: &StderrTail, text: &str| #[trigger]
            call_ensures(StderrTail::text, (tail,), text) ==> text@ == tail@,
{
    reveal_strlit("\n");
    assert("\n"@ =~= seq!['\n']);
}

/// Blank lines of the control socket ask for nothing, and a failed read and a
/// line that is no JSON end the reading with their whole text.
pub proof fn law_lines_outside_the_protocol(
    line: String,
    reason: String,
    step: ControlStep,
    failed: ControlStep,
)
    requires
        call_ensures(read_host_events, (Ok(line),), step),
        call_ensures(read_host_events, (Err(reason),), failed),
    ensures
        (forall|i: int| 0 <= i < line@.len() ==> crate::text::is_white_space(#[trigger] line@[i]))
            ==> step is Continue,
        (exists|i: int| 0 <= i < line@.len() && !crate::text::is_white_space(#[trigger] line@[i]))
            && crate::json::json_parse(line@) is None ==> (step matches ControlStep::Fail(message)
            && message@ == "Desktop Host sent an invalid control frame: "@ + line@),
        failed matches ControlStep::Fail(message) && message@ == "control socket: "@ + reason@,
{
    if forall|i: int| 0 <= i < line@.len() ==> crate::text::is_white_space(#[trigger] line@[i]) {
        crate::laws::text::lemma_blank(line@);
    } else {
        let i = choose|i: int|
            0 <= i < line@.len() && !crate::text::is_white_space(#[trigger] line@[i]);
        crate::laws::text::lemma_not_blank(line@, i);
    }
}

/// What the four kinds of control frames ask for, with every text as the Host
/// wrote it, and that any other frame ends the reading.
pub open spec fn frame_asks(
    kind: Option<Seq<char>>,
    url: Option<Seq<char>>,
    message: Option<Seq<char>>,
    injections: Option<JsonView>,
    line: Seq<char>,
    step: ControlStep,
) -> bool {
    &&& kind == Some("ready"@) && url is Some ==> {
        &&& step matches ControlStep::Authenticate { url: asked, injections: table }
        &&& asked@ == url->0
        &&& injections matches Some(given) ==> crate::json::json_view(table) == given
        &&& injections is None ==> crate::json::json_view(table) == JsonView::List(seq![])
    }
    &&& kind == Some("ready"@) && url is None ==> (step matches ControlStep::Fail(text) && text@
        == "Desktop Host ready frame has no url"@)
    &&& kind == Some("fatal"@) && message is Some ==> (step matches ControlStep::Fatal {
        failure,
        shown,
    } && shown@ == message->0 && failure@ == "Desktop Host: "@ + message->0)
    &&& kind == Some("fatal"@) && message is None ==> (step matches ControlStep::Fatal {
        failure,
        shown,
    } && shown@ == "Desktop Host reported a fatal error"@ && failure@ == "Desktop Host: "@
        + "Desktop Host reported a fatal error"@)
    &&& kind == Some("shutdown-complete"@) || kind == Some("update-tasks"@) ==> step is Continue
    &&& kind != Some("ready"@) && kind != Some("fatal"@) && kind != Some("shutdown-complete"@)
        && kind != Some("update-tasks"@) ==> (step matches ControlStep::Fail(text) && text@
        == "Desktop Host sent an invalid control frame: "@ + line)
}

proof fn lemma_kinds()
    ensures
        "ready"@ != "fatal"@,
        "ready"@ != "shutdown-complete"@,
        "ready"@ != "update-tasks"@,
        "fatal"@ != "shutdown-complete"@,
        "fatal"@ != "update-tasks"@,
{
    reveal_strlit("ready");
    reveal_strlit("fatal");
    reveal_strlit("shutdown-complete");
    reveal_strlit("update-tasks");
    assert("ready"@[0] != "fatal"@[0]);
    assert("ready"@.len() == 5 && "fatal"@.len() == 5);
    assert("shutdown-complete"@.len() == 17 && "update-tasks"@.len() == 12);
}

/// The text of an optional string.
pub open spec fn maybe(text: Option<String>) -> Option<Seq<char>> {
    match text {
        Some(found) => Some(found@),
        None => None,
    }
}

/// A control frame asks for what its kind says.
pub proof fn law_frames_ask_by_their_kind(frame: ControlFrame, line: &str, step: ControlStep)
    requires
        call_ensures(control_event, (frame, line), step),
    ensures
        frame_asks(
            maybe(frame.kind),
            maybe(frame.url),
            maybe(frame.message),
            match frame.injections {
                Some(table) => Some(crate::json::json_view(table)),
                None => None,
            },
            line@,
            step,
        ),
{
    lemma_kinds();
}

/// The string that an object has for a key.
pub open spec fn string_at(members: Map<Seq<char>, JsonView>, key: Seq<char>) -> Option<
    Seq<char>,
> {
    if members.dom().contains(key) && members[key] is Text {
        Some(members[key]->Text_0)
    } else {
        None
    }
}

/// A line that is a JSON object asks for what its members say; one that is any
/// other JSON ends the reading.
pub proof fn law_lines_ask_by_their_members(line: String, at: int, step: ControlStep)
    requires
        call_ensures(read_host_events, (Ok(line),), step),
        0 <= at < line@.len(),
        !crate::text::is_white_space(line@[at]),
    ensures
        crate::json::json_parse(line@) matches Some(JsonView::Object(members)) ==> frame_asks(
            string_at(members, "type"@),
            string_at(members, "url"@),
            string_at(members, "message"@),
            if members.dom().contains("injections"@) {
                Some(members["injections"@])
            } else {
                None
            },
            line@,
            step,
        ),
        (crate::json::json_parse(line@) matches Some(document) && document !is Object) ==> (
        step matches ControlStep::Fail(text) && text@
            == "Desktop Host sent an invalid control frame: "@ + line@),
{
    lemma_kinds();
    crate::laws::text::lemma_not_blank(line@, at);
}

proof fn lemma_ascii_value(text: Seq<char>)
    requires
        forall|i: int| 0 <= i < text.len() ==> ' ' <= #[trigger] text[i] <= '~' || text[i] == '\t',
    ensures
        crate::headers::all_visible(vstd::utf8::encode_utf8(text)),
        crate::headers::byte_text(vstd::utf8::encode_utf8(text)) == text,
{
    assert(vstd::utf8::is_ascii_chars(text));
    vstd::utf8::is_ascii_chars_encode_utf8(text);
    let bytes = vstd::utf8::encode_utf8(text);
    assert forall|i: int| 0 <= i < bytes.len() implies crate::headers::visible_byte(
        #[trigger] bytes[i],
    ) by {
        assert(text[i] as u8 == bytes[i]);
    }
    assert(crate::headers::byte_text(bytes) =~= text);
}

/// The whole cookie pair is kept: all that stands ahead of the first semicolon
/// of the first `set-cookie`, however long it is, or all of it where there is no
/// semicolon.
pub proof fn law_the_whole_pair_is_kept(
    headers: http::HeaderMap<http::HeaderValue>,
    pair: Seq<char>,
    rest: Seq<char>,
    cookie: Result<String, String>,
)
    requires
        call_ensures(authenticate, (&AuthReply::Answered { status: 303, headers },), cookie),
        crate::headers::header_values(headers, "set-cookie"@).len() > 0,
        crate::headers::header_values(headers, "set-cookie"@)[0].0 == vstd::utf8::encode_utf8(
            pair + rest,
        ),
        forall|i: int|
            0 <= i < (pair + rest).len() ==> ' ' <= #[trigger] (pair + rest)[i] <= '~' || (pair
                + rest)[i] == '\t',
        !pair.contains(';'),
        rest.len() > 0 ==> rest[0] == ';',
    ensures
        cookie matches Ok(kept) && kept@ == pair,
{
    lemma_ascii_value(pair + rest);
    crate::laws::text::lemma_before(pair, rest, ';');
}

/// A reply without a readable cookie, or with a status other than 303, fails
/// with that status, and a request that failed with its reason.
pub proof fn law_other_replies_fail(
    status: u16,
    headers: http::HeaderMap<http::HeaderValue>,
    digits: String,
    reason: String,
    cookie: Result<String, String>,
    failed: Result<String, String>,
)
    requires
        call_ensures(authenticate, (&AuthReply::Answered { status, headers },), cookie),
        call_ensures(authenticate, (&AuthReply::Failed(reason),), failed),
        call_ensures(decimal, (status,), digits),
        ({
            let cookies = crate::headers::header_values(headers, "set-cookie"@);
            status != 303 || cookies.len() == 0 || exists|i: int|
                0 <= i < cookies[0].0.len() && !(32 <= #[trigger] cookies[0].0[i] < 127
                    || cookies[0].0[i] == 9)
        }),
    ensures
        cookie matches Err(message) && message@ == "Desktop Host authentication failed ("@
            + digits@ + ")"@,
        failed matches Err(message) && message@ == "Desktop Host authentication request failed: "@
            + reason@,
{
    let cookies = crate::headers::header_values(headers, "set-cookie"@);
    if cookies.len() > 0 && crate::headers::all_visible(cookies[0].0) {
        assert forall|i: int| 0 <= i < cookies[0].0.len() implies 32 <= #[trigger] cookies[0].0[i]
            < 127 || cookies[0].0[i] == 9 by {
            assert(crate::headers::visible_byte(cookies[0].0[i]));
        }
    }
}

/// An origin is the whole scheme, host and port of a URL; a URL without a host
/// is at the loopback, and one without a port has no origin.
pub proof fn law_origins_are_whole(url: &UrlParts, origin: Result<String, String>)
    requires
        call_ensures(origin_of_parts, (url,), origin),
    ensures
        forall|port: u16, digits: String|
            url.port == Some(port) && #[trigger] call_ensures(decimal, (port,), digits) ==> (
            origin matches Ok(text) && text@ == url.scheme@ + "://"@ + (match url.host {
                Some(host) => host@,
                None => "127.0.0.1"@,
            }) + ":"@ + digits@),
        url.port is None ==> (origin matches Err(message) && message@
            == "Desktop Host url has no port"@),
{
}

/// The origin of a URL text is that of its parts, and a text that is no URL
/// fails with the whole reason.
pub proof fn law_origins_come_from_the_parts(
    url: &str,
    parts: &UrlParts,
    of_text: Result<String, String>,
    of_parts: Result<String, String>,
)
    requires
        call_ensures(origin_of, (url,), of_text),
        call_ensures(origin_of_parts, (parts,), of_parts),
    ensures
        crate::url::url_parse(url@) == Ok::<crate::url::UrlView, Seq<char>>(parts@) ==> {
            &&& of_text is Ok <==> of_parts is Ok
            &&& of_text is Ok ==> of_text->Ok_0@ == of_parts->Ok_0@
            &&& of_text is Err ==> of_text->Err_0@ == of_parts->Err_0@
        },
        crate::url::url_parse(url@) matches Err(reason) ==> (of_text matches Err(message)
            && message@ == "Desktop Host url: "@ + reason),
{
}

/// A ready Host is published with the cookie of its reply, the origin of its URL
/// and its injections as they are; the reply fails ahead of the URL.
pub proof fn law_ready_hosts_are_published_whole(
    url: &str,
    injections: serde_json::Value,
    reply: &AuthReply,
    cookie: Result<String, String>,
    origin: Result<String, String>,
    startup: Result<Startup, String>,
)
    requires
        call_ensures(authenticate, (reply,), cookie),
        call_ensures(origin_of, (url,), origin),
        call_ensures(host_ready, (url, injections, reply), startup),
    ensures
        cookie is Ok && origin is Ok ==> {
            &&& startup matches Ok(Startup::Ready { host_origin, cookie: held, injections: table })
            &&& host_origin@ == origin->Ok_0@
            &&& held@ == cookie->Ok_0@
            &&& crate::json::json_view(table) == crate::json::json_view(injections)
        },
        cookie matches Err(reason) ==> (startup matches Err(message) && message@ == reason@),
        cookie is Ok && origin is Err ==> (startup matches Err(message) && message@
            == origin->Err_0@),
{
}

/// The parts of a JSON document are read by their names.
pub proof fn law_members_are_read_by_name(
    members: Map<Seq<char>, JsonView>,
    key: Seq<char>,
    document: JsonView,
)
    ensures
        JsonView::Object(members).member(key) == (if members.dom().contains(key) {
            Some(members[key])
        } else {
            None
        }),
        document !is Object ==> document.member(key) is None,
        JsonView::Object(members).text_member(key) == string_at(members, key),
{
}

/// The process runs the entry that was looked for, and a missing one is named.
pub proof fn law_the_entry_is_run(
    paths: &ShellPaths,
    inherited_path: &str,
    entry: String,
    launch: HostLaunch,
    missing: SuperviseStep,
)
    requires
        call_ensures(host_entry, (paths,), entry),
        call_ensures(host_launch, (paths, inherited_path), launch),
        call_ensures(
            supervise,
            (paths, inherited_path, SuperviseEvent::Entry { is_file: false }),
            missing,
        ),
    ensures
        launch.args@.len() == 8,
        launch.args@[1]@ == entry@,
        finished_saying(missing, "dsh desktop tauri: missing Desktop Host entry "@ + entry@),
{
    let args = launch.args@.map_values(|arg: String| arg@);
    assert(args.len() == 8);
    assert(args[1] == launch.args@[1]@);
}

/// The string member of a document is read whole, and only where it is a string.
pub proof fn law_string_members(
    value: &serde_json::Value,
    key: &str,
    found: Option<String>,
)
    requires
        call_ensures(crate::json::text_member, (value, key), found),
    ensures
        crate::json::json_view(*value) matches JsonView::Object(members) ==> maybe(found)
            == string_at(members, key@),
        crate::json::json_view(*value) !is Object ==> found is None,
{
}

} // verus!
