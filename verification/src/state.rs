//! Shared shell state: host startup facts, the stream bridge origin, and the
//! application window handle used for fatal presentation.

use vstd::prelude::*;

use crate::hmr_bridge::HmrBridge;
use crate::host::HostHandle;
use crate::json::{copy, object, quoted, text_value, JsonView};
use crate::paths::ShellPaths;

verus! {

/// The stream base before the bridge has bound its port.
pub const UNBOUND_STREAM_BASE: &'static str = "http://127.0.0.1:0";

/// The script that shows a fatal message, up to the message.
pub const FATAL_SCRIPT_HEAD: &'static str =
    "document.open();document.write('<pre style=\"white-space:pre-wrap;font:13px ui-monospace,monospace;padding:24px\">dsh desktop: fatal\\n'+";

/// The script that shows a fatal message, behind the message.
pub const FATAL_SCRIPT_TAIL: &'static str = "+'</pre>');document.close();";

/// What a native fatal dialog says ahead of the message.
pub const FATAL_DIALOG_HEAD: &'static str = "dsh desktop: fatal\n";

/// Boot facts the shell holds in memory; the auth cookie never reaches the page.
#[derive(Debug)]
pub enum Startup {
    Pending,
    Ready {
        /// Loopback origin the Host listens on.
        host_origin: String,
        /// Authority-bound Host cookie, held only by the shell.
        cookie: String,
        /// Boot injection table reported by the Host.
        injections: serde_json::Value,
    },
    Failed(String),
}

/// What a [`Startup`] says.
pub enum StartupView {
    Pending,
    Ready { host_origin: Seq<char>, cookie: Seq<char>, injections: JsonView },
    Failed(Seq<char>),
}

impl View for Startup {
    type V = StartupView;

    open spec fn view(&self) -> StartupView {
        match *self {
            Startup::Pending => StartupView::Pending,
            Startup::Ready { host_origin, cookie, injections } => StartupView::Ready {
                host_origin: host_origin@,
                cookie: cookie@,
                injections: crate::json::json_view(injections),
            },
            Startup::Failed(message) => StartupView::Failed(message@),
        }
    }
}

impl Clone for Startup {
    fn clone(&self) -> (same: Startup)
        ensures
            same@ == self@,
    {
        match self {
            Startup::Pending => Startup::Pending,
            Startup::Ready { host_origin, cookie, injections } => Startup::Ready {
                host_origin: host_origin.clone(),
                cookie: cookie.clone(),
                injections: copy(injections),
            },
            Startup::Failed(message) => Startup::Failed(message.clone()),
        }
    }
}

/// What a fatal message is shown with.
pub struct FatalNotice {
    /// The script for the application window, where there is one.
    pub script: Option<String>,
    /// The text for a native dialog, where the application runs.
    pub dialog: Option<String>,
}

/// The answer to the page's boot handshake: `None` while the page has to wait.
pub open spec fn boot_answer(startup: StartupView, stream_base: Seq<char>) -> Option<
    Result<JsonView, Seq<char>>,
> {
    match startup {
        StartupView::Pending => None,
        StartupView::Ready { injections, .. } => Some(
            Ok(
                JsonView::Object(
                    map![
                        "injections"@ => injections,
                        "streamBaseUrl"@ => JsonView::Text(stream_base),
                    ],
                ),
            ),
        ),
        StartupView::Failed(message) => Some(Err(message)),
    }
}

/// The Host origin and cookie, once the Host authenticated.
pub open spec fn connection_of(startup: StartupView) -> Option<(Seq<char>, Seq<char>)> {
    match startup {
        StartupView::Ready { host_origin, cookie, .. } => Some((host_origin, cookie)),
        _ => None,
    }
}

/// The script that shows `message`.
pub open spec fn fatal_script(message: Seq<char>) -> Seq<char> {
    FATAL_SCRIPT_HEAD@ + crate::json::json_quoted(message) + FATAL_SCRIPT_TAIL@
}

/// The script that shows the message that a JSON string literal stands for.
pub fn script_showing(literal: &str) -> (script: String)
    ensures
        script@ == FATAL_SCRIPT_HEAD@ + literal@ + FATAL_SCRIPT_TAIL@,
{
    let mut script = FATAL_SCRIPT_HEAD.to_owned();
    script.append(literal);
    script.append(FATAL_SCRIPT_TAIL);
    script
}

/// State shared by the protocol handler, the WebSocket bridge, the boot
/// commands, and the Host supervisor. `W` is the window and `A` the
/// application handle.
pub struct ShellState<W, A> {
    /// Development filesystem roots.
    pub paths: ShellPaths,
    pub startup: Startup,
    pub stream_base: Option<String>,
    pub window: Option<W>,
    pub app: Option<A>,
    pub host: Option<HostHandle>,
    pub hmr: Option<HmrBridge>,
}

impl<W, A> ShellState<W, A> {
    /// The registered stream base, or the unbound one.
    pub open spec fn base(self) -> Seq<char> {
        match self.stream_base {
            Some(origin) => origin@,
            None => UNBOUND_STREAM_BASE@,
        }
    }

    /// Create pending state for the resolved development roots.
    pub fn new(paths: ShellPaths) -> (state: Self)
        ensures
            state == (ShellState::<W, A> {
                paths,
                startup: Startup::Pending,
                stream_base: None,
                window: None,
                app: None,
                host: None,
                hmr: None,
            }),
    {
        ShellState {
            paths,
            startup: Startup::Pending,
            stream_base: None,
            window: None,
            app: None,
            host: None,
            hmr: None,
        }
    }

    /// Current startup snapshot.
    pub fn startup(&self) -> (startup: Startup)
        ensures
            startup@ == self.startup@,
    {
        self.startup.clone()
    }

    /// Host origin and cookie once the Host authenticated; `None` while pending or failed.
    pub fn host_connection(&self) -> (connection: Option<(String, String)>)
        ensures
            match connection {
                Some(found) => connection_of(self.startup@) == Some((found.0@, found.1@)),
                None => connection_of(self.startup@) is None,
            },
    {
        match &self.startup {
            Startup::Ready { host_origin, cookie, .. } => Some(
                (host_origin.clone(), cookie.clone()),
            ),
            _ => None,
        }
    }

    /// Publish readiness or a failure.
    pub fn publish(&mut self, startup: Startup)
        ensures
            *final(self) == (ShellState { startup, ..*old(self) }),
    {
        self.startup = startup;
    }

    /// The boot answer for the page: injections plus the stream bridge origin.
    /// `None` while the page has to wait.
    pub fn wait_for_boot(&self) -> (answer: Option<Result<serde_json::Value, String>>)
        ensures
            match answer {
                None => boot_answer(self.startup@, self.base()) is None,
                Some(Ok(value)) => boot_answer(self.startup@, self.base()) == Some(
                    Ok::<JsonView, Seq<char>>(crate::json::json_view(value)),
                ),
                Some(Err(message)) => boot_answer(self.startup@, self.base()) == Some(
                    Err::<JsonView, Seq<char>>(message@),
                ),
            },
    {
        match &self.startup {
            Startup::Pending => None,
            Startup::Ready { injections, .. } => {
                let mut members: Vec<(String, serde_json::Value)> = Vec::new();
                members.push(("injections".to_owned(), copy(injections)));
                members.push(("streamBaseUrl".to_owned(), text_value(self.stream_base())));
                proof {
                    let all = members@;
                    reveal_with_fuel(crate::json::members_of, 3);
                    assert(all.drop_last().drop_last() =~= Seq::<(String, serde_json::Value)>::empty());
                    assert(crate::json::members_of(all) =~= map![
                        "injections"@ => crate::json::json_view(*injections),
                        "streamBaseUrl"@ => JsonView::Text(self.base()),
                    ]);
                }
                Some(Ok(object(members)))
            },
            Startup::Failed(message) => Some(Err(message.clone())),
        }
    }

    /// Register the WebSocket bridge origin returned to the page.
    pub fn set_stream_base(&mut self, origin: String)
        ensures
            *final(self) == (ShellState { stream_base: Some(origin), ..*old(self) }),
    {
        self.stream_base = Some(origin);
    }

    /// Registered stream bridge origin, once the listener bound.
    pub fn stream_base(&self) -> (origin: String)
        ensures
            origin@ == self.base(),
    {
        match &self.stream_base {
            Some(origin) => origin.clone(),
            None => UNBOUND_STREAM_BASE.to_owned(),
        }
    }

    /// Remember the application window for fatal presentation from Host threads.
    pub fn set_window(&mut self, window: W)
        ensures
            *final(self) == (ShellState { window: Some(window), ..*old(self) }),
    {
        self.window = Some(window);
    }

    /// Remember the app handle for native fatal dialogs from Host threads.
    pub fn set_app(&mut self, app: A)
        ensures
            *final(self) == (ShellState { app: Some(app), ..*old(self) }),
    {
        self.app = Some(app);
    }

    /// Present a fatal message on the loaded document and in a native dialog.
    /// The script carries the message as a JSON string, which reads back as the
    /// message.
    pub fn show_fatal(&self, message: &str) -> (notice: FatalNotice)
        ensures
            notice.script is Some <==> self.window is Some,
            notice.script matches Some(script) ==> script@ == fatal_script(message@)
                && crate::json::json_parse(crate::json::json_quoted(message@)) == Some(
                JsonView::Text(message@),
            ),
            notice.dialog is Some <==> self.app is Some,
            notice.dialog matches Some(text) ==> text@ == FATAL_DIALOG_HEAD@ + message@,
    {
        let script: Option<String> = match &self.window {
            Some(_) => Some(script_showing(quoted(message).as_str())),
            None => None,
        };
        let dialog: Option<String> = match &self.app {
            Some(_) => {
                let mut text = FATAL_DIALOG_HEAD.to_owned();
                text.append(message);
                Some(text)
            },
            None => None,
        };
        FatalNotice { script, dialog }
    }

    /// Register the Host supervisor handle owned by the exit path.
    pub fn set_host(&mut self, host: HostHandle)
        ensures
            *final(self) == (ShellState { host: Some(host), ..*old(self) }),
    {
        self.host = Some(host);
    }

    /// Owned Host supervisor, when the Host was launched.
    pub fn host(&mut self) -> (host: Option<&mut HostHandle>)
        ensures
            match host {
                Some(handle) => old(self).host == Some(*handle) && *final(self) == (ShellState {
                    host: Some(*final(handle)),
                    ..*old(self)
                }),
                None => old(self).host is None && *final(self) == *old(self),
            },
    {
        match &mut self.host {
            Some(handle) => Some(handle),
            None => None,
        }
    }

    /// Register the plugins-events bridge owned by the boot bridge commands.
    pub fn set_hmr(&mut self, hmr: HmrBridge)
        ensures
            *final(self) == (ShellState { hmr: Some(hmr), ..*old(self) }),
    {
        self.hmr = Some(hmr);
    }

    /// Owned plugins-events bridge, when the shell started it.
    pub fn hmr(&mut self) -> (hmr: Option<&mut HmrBridge>)
        ensures
            match hmr {
                Some(bridge) => old(self).hmr == Some(*bridge) && *final(self) == (ShellState {
                    hmr: Some(*final(bridge)),
                    ..*old(self)
                }),
                None => old(self).hmr is None && *final(self) == *old(self),
            },
    {
        match &mut self.hmr {
            Some(bridge) => Some(bridge),
            None => None,
        }
    }

    /// Drain queued Host plugins-events frames for the polling EventSource
    /// polyfill: every frame in arrival order, or none where no bridge runs.
    pub fn desktop_hmr_poll(&mut self) -> (frames: Vec<String>)
        ensures
            frames@.map_values(|frame: String| frame@) == (match old(self).hmr {
                Some(bridge) => bridge@,
                None => Seq::<Seq<char>>::empty(),
            }),
            match old(self).hmr {
                Some(_) => {
                    &&& final(self).hmr matches Some(bridge)
                    &&& bridge@ == Seq::<Seq<char>>::empty()
                    &&& *final(self) == (ShellState { hmr: final(self).hmr, ..*old(self) })
                },
                None => *final(self) == *old(self),
            },
    {
        match self.hmr() {
            Some(bridge) => bridge.drain(),
            None => {
                let none: Vec<String> = Vec::new();
                assert(none@.map_values(|frame: String| frame@) =~= Seq::<Seq<char>>::empty());
                none
            },
        }
    }
}

/// The page sees no credential: the answer to its boot handshake is the same
/// whatever the Host's origin and cookie are, and carries the injection table
/// as the Host reported it.
pub proof fn law_boot_tells_no_credential(
    one: (Seq<char>, Seq<char>),
    other: (Seq<char>, Seq<char>),
    injections: JsonView,
    stream_base: Seq<char>,
)
    ensures
        boot_answer(
            StartupView::Ready { host_origin: one.0, cookie: one.1, injections },
            stream_base,
        ) == boot_answer(
            StartupView::Ready { host_origin: other.0, cookie: other.1, injections },
            stream_base,
        ),
        boot_answer(
            StartupView::Ready { host_origin: one.0, cookie: one.1, injections },
            stream_base,
        ) matches Some(Ok(answer)) && answer.member("injections"@) == Some(injections)
            && answer.member("streamBaseUrl"@) == Some(JsonView::Text(stream_base)),
{
    reveal_strlit("injections");
    reveal_strlit("streamBaseUrl");
    assert("injections"@.len() != "streamBaseUrl"@.len());
}

} // verus!
