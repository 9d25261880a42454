//! Laws of the shared state.

use vstd::prelude::*;

use crate::json::JsonView;
use crate::state::{script_showing, FatalNotice, ShellState, Startup};

verus! {

/// A page waits while the Host is pending, learns the whole message of a
/// failure, and of a ready Host exactly two things: its injections as they are
/// and the stream base.
pub proof fn law_the_boot_answer_has_two_members<W, A>(
    state: &ShellState<W, A>,
    base: String,
    answer: Option<Result<serde_json::Value, String>>,
)
    requires
        call_ensures(ShellState::<W, A>::wait_for_boot, (state,), answer),
        call_ensures(ShellState::<W, A>::stream_base, (state,), base),
    ensures
        state.startup is Pending ==> answer is None,
        state.startup matches Startup::Failed(message) ==> (answer matches Some(Err(told)) && told@
            == message@),
        state.startup matches Startup::Ready { injections, .. } ==> {
            &&& answer matches Some(Ok(value))
            &&& crate::json::json_view(value) matches JsonView::Object(members)
            &&& members.dom() == set!["injections"@, "streamBaseUrl"@]
            &&& members["injections"@] == crate::json::json_view(injections)
            &&& members["streamBaseUrl"@] == JsonView::Text(base@)
        },
        state.stream_base matches Some(origin) ==> base@ == origin@,
        state.stream_base is None ==> base@ == "http://127.0.0.1:0"@,
{
    reveal_strlit("injections");
    reveal_strlit("streamBaseUrl");
    assert("injections"@.len() == 10 && "streamBaseUrl"@.len() == 13);
    if let Startup::Ready { injections, .. } = state.startup {
        if let Some(Ok(value)) = answer {
            if let JsonView::Object(members) = crate::json::json_view(value) {
                assert(members.dom() =~= set!["injections"@, "streamBaseUrl"@]);
            }
        }
    }
}

/// A snapshot says what the state does, and there is a connection, whole, where
/// the Host is ready and only there.
pub proof fn law_snapshots_are_whole<W, A>(
    state: &ShellState<W, A>,
    snapshot: Startup,
    connection: Option<(String, String)>,
)
    requires
        call_ensures(ShellState::<W, A>::startup, (state,), snapshot),
        call_ensures(ShellState::<W, A>::host_connection, (state,), connection),
    ensures
        state.startup is Pending <==> snapshot is Pending,
        state.startup matches Startup::Failed(message) ==> (snapshot matches Startup::Failed(same)
            && same@ == message@ && connection is None),
        state.startup is Pending ==> connection is None,
        state.startup matches Startup::Ready { host_origin, cookie, injections } ==> {
            &&& snapshot matches Startup::Ready { host_origin: o, cookie: c, injections: t }
            &&& o@ == host_origin@
            &&& c@ == cookie@
            &&& crate::json::json_view(t) == crate::json::json_view(injections)
            &&& connection matches Some((origin, held))
            &&& origin@ == host_origin@
            &&& held@ == cookie@
        },
{
}

/// A fatal message is shown whole on a window and in a dialog, where there is
/// one; the script carries it as a JSON string that reads back as the message.
pub proof fn law_fatal_messages_are_shown_whole<W, A>(
    state: &ShellState<W, A>,
    message: &str,
    notice: FatalNotice,
    quoted: &str,
    script: String,
)
    requires
        call_ensures(ShellState::<W, A>::show_fatal, (state, message), notice),
        quoted@ == crate::json::json_quoted(message@),
        call_ensures(script_showing, (quoted,), script),
    ensures
        state.window is None ==> notice.script is None,
        state.window is Some ==> (notice.script matches Some(shown) && shown@ == script@
            && crate::json::json_parse(quoted@) == Some(JsonView::Text(message@))),
        script@ == "document.open();document.write('<pre style=\"white-space:pre-wrap;font:13px ui-monospace,monospace;padding:24px\">dsh desktop: fatal\\n'+"@
            + quoted@ + "+'</pre>');document.close();"@,
        state.app is None ==> notice.dialog is None,
        state.app is Some ==> (notice.dialog matches Some(text) && text@ == "dsh desktop: fatal\n"@
            + message@),
{
}

/// Every registration sets its own part of the state and leaves the rest.
pub proof fn law_registrations_leave_the_rest<W, A>(paths: crate::paths::ShellPaths, fresh: ShellState<W, A>)
    requires
        call_ensures(ShellState::<W, A>::new, (paths,), fresh),
    ensures
        fresh.paths == paths,
        fresh.startup is Pending,
        fresh.stream_base is None && fresh.window is None && fresh.app is None && fresh.host is None
            && fresh.hmr is None,
        forall|state: &mut ShellState<W, A>, startup: Startup| #[trigger]
            call_ensures(ShellState::<W, A>::publish, (state, startup), ()) ==> {
                &&& final(state).startup == startup
                &&& final(state).paths == (*state).paths && final(state).stream_base
                    == (*state).stream_base && final(state).window == (*state).window && final(
                    state).app == (*state).app && final(state).host == (*state).host && final(
                    state).hmr == (*state).hmr
            },
        forall|state: &mut ShellState<W, A>, origin: String| #[trigger]
            call_ensures(ShellState::<W, A>::set_stream_base, (state, origin), ()) ==> {
                &&& final(state).stream_base == Some(origin)
                &&& final(state).paths == (*state).paths && final(state).startup == (*state).startup
                    && final(state).window == (*state).window && final(state).app == (*state).app
                    && final(state).host == (*state).host && final(state).hmr == (*state).hmr
            },
        forall|state: &mut ShellState<W, A>, window: W| #[trigger]
            call_ensures(ShellState::<W, A>::set_window, (state, window), ()) ==> {
                &&& final(state).window == Some(window)
                &&& final(state).paths == (*state).paths && final(state).startup == (*state).startup
                    && final(state).stream_base == (*state).stream_base && final(state).app
                    == (*state).app && final(state).host == (*state).host && final(state).hmr
                    == (*state).hmr
            },
        forall|state: &mut ShellState<W, A>, app: A| #[trigger]
            call_ensures(ShellState::<W, A>::set_app, (state, app), ()) ==> {
                &&& final(state).app == Some(app)
                &&& final(state).paths == (*state).paths && final(state).startup == (*state).startup
                    && final(state).stream_base == (*state).stream_base && final(state).window
                    == (*state).window && final(state).host == (*state).host && final(state).hmr
                    == (*state).hmr
            },
        forall|state: &mut ShellState<W, A>, host: crate::host::HostHandle| #[trigger]
            call_ensures(ShellState::<W, A>::set_host, (state, host), ()) ==> {
                &&& final(state).host == Some(host)
                &&& final(state).paths == (*state).paths && final(state).startup == (*state).startup
                    && final(state).stream_base == (*state).stream_base && final(state).window
                    == (*state).window && final(state).app == (*state).app && final(state).hmr
                    == (*state).hmr
            },
        forall|state: &mut ShellState<W, A>, hmr: crate::hmr_bridge::HmrBridge| #[trigger]
            call_ensures(ShellState::<W, A>::set_hmr, (state, hmr), ()) ==> {
                &&& final(state).hmr == Some(hmr)
                &&& final(state).paths == (*state).paths && final(state).startup == (*state).startup
                    && final(state).stream_base == (*state).stream_base && final(state).window
                    == (*state).window && final(state).app == (*state).app && final(state).host
                    == (*state).host
            },
{
}

/// A poll takes every queued frame in order and leaves none, and touches nothing
/// else; without a bridge there are none.
pub proof fn law_polls_take_every_frame<W, A>()
    ensures
        forall|state: &mut ShellState<W, A>, frames: Vec<String>| #[trigger]
            call_ensures(ShellState::<W, A>::desktop_hmr_poll, (state,), frames) ==> {
                &&& (*state).hmr is None ==> frames@.len() == 0 && *final(state) == *state
                &&& (*state).hmr is Some ==> {
                    let queued = (*state).hmr->0@;
                    &&& frames@.len() == queued.len()
                    &&& forall|i: int|
                        0 <= i < frames@.len() ==> #[trigger] frames@[i]@ == queued[i]
                    &&& final(state).hmr is Some
                    &&& final(state).hmr->0@.len() == 0
                    &&& final(state).startup == (*state).startup
                    &&& final(state).paths == (*state).paths
                }
            },
{
    assert forall|state: &mut ShellState<W, A>, frames: Vec<String>| #[trigger]
        call_ensures(ShellState::<W, A>::desktop_hmr_poll, (state,), frames) implies {
        &&& (*state).hmr is None ==> frames@.len() == 0 && *final(state) == *state
        &&& (*state).hmr is Some ==> {
            let queued = (*state).hmr->0@;
            &&& frames@.len() == queued.len()
            &&& forall|i: int| 0 <= i < frames@.len() ==> #[trigger] frames@[i]@ == queued[i]
            &&& final(state).hmr is Some
            &&& final(state).hmr->0@.len() == 0
            &&& final(state).startup == (*state).startup
            &&& final(state).paths == (*state).paths
        }
    } by {
        let texts = frames@.map_values(|frame: String| frame@);
        assert(texts.len() == frames@.len());
        assert forall|i: int| 0 <= i < frames@.len() implies #[trigger] frames@[i]@ == texts[i] by {}
    }
}

/// The Host handle and the events bridge are handed out where they are
/// registered, and what is done to them is done to the state.
pub proof fn law_registered_parts_are_handed_out<W, A>()
    ensures
        forall|state: &mut ShellState<W, A>, host: Option<&mut crate::host::HostHandle>| #[trigger]
            call_ensures(ShellState::<W, A>::host, (state,), host) ==> {
                &&& (*state).host is Some <==> host is Some
                &&& host is None ==> *final(state) == *state
                &&& host is Some ==> (*state).host == Some(*(host->0)) && final(state).host == Some(*final(host->0)) && final(state).startup == (*state).startup && final(state).hmr == (*state).hmr
            },
        forall|state: &mut ShellState<W, A>, hmr: Option<&mut crate::hmr_bridge::HmrBridge>|
            #[trigger] call_ensures(ShellState::<W, A>::hmr, (state,), hmr) ==> {
                &&& (*state).hmr is Some <==> hmr is Some
                &&& hmr is None ==> *final(state) == *state
                &&& hmr is Some ==> (*state).hmr == Some(*(hmr->0)) && final(state).hmr == Some(*final(hmr->0)) && final(state).startup == (*state).startup && final(state).host == (*state).host
            },
{
}

} // verus!
