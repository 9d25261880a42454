//! The application shell around the page: its origin, the script that runs
//! ahead of the page, the navigation fence and the page's theme.

use vstd::prelude::*;

use crate::json::quoted;
use crate::text::same_text;
use crate::url::UrlParts;

verus! {

/// Origin of the desktop application document.
pub const APP_ORIGIN: &'static str = "dsh-app://app";

/// The initialization script up to the platform name.
pub const INIT_SCRIPT_HEAD: &'static str = r#";(function () {
  'use strict'
  var root = document.documentElement
  if (root !== null) root.setAttribute('data-platform', "#;

/// The initialization script behind the platform name.
pub const INIT_SCRIPT_BODY: &'static str = r#")
  var internals = globalThis.__TAURI_INTERNALS__
  globalThis.dshDesktop = { protocolVersion: 1 }
  // The custom protocol answers with complete bodies, so the Host's
  // plugins-events stream cannot pass through it. The shell holds the stream
  // (hmr_bridge) and the page polls it; graph frames are full snapshots, so
  // polling preserves the reconcile semantics.
  var NativeEventSource = globalThis.EventSource
  var PollingEventSource = function () {
    var listeners = []
    var stopped = false
    var timer = null
    this.addEventListener = function (type, listener) {
      if (type === 'message' && typeof listener === 'function') listeners.push(listener)
    }
    this.close = function () {
      if (stopped) return
      stopped = true
      if (timer !== null) clearInterval(timer)
    }
    timer = setInterval(function () {
      if (stopped) return
      var invoke = globalThis.__TAURI_INTERNALS__ === undefined ? undefined : globalThis.__TAURI_INTERNALS__.invoke
      if (invoke === undefined) return
      invoke('desktop_hmr_poll').then(function (frames) {
        for (var i = 0; i < frames.length; i += 1) {
          var event = { data: frames[i] }
          for (var j = 0; j < listeners.length; j += 1) listeners[j](event)
        }
      }).catch(function () {})
    }, 1000)
  }
  globalThis.EventSource = function (url) {
    if (String(url).indexOf('/plugins/events') !== -1) return new PollingEventSource()
    return NativeEventSource === undefined ? undefined : new NativeEventSource(url)
  }
  if (internals === undefined || typeof internals.invoke !== 'function') return
  globalThis.dshDesktopBoot = {
    ready: function () { return internals.invoke('desktop_boot') },
    failed: function (message) { return internals.invoke('desktop_boot_failed', { message: String(message) }) },
  }
  globalThis.__DSH_DIRECTORY_PICKER__ = {
    pick: function () { return internals.invoke('desktop_pick_directory') },
  }"#;

/// The part of the initialization script that keeps the native theme on the
/// palette of the page.
pub const THEME_OBSERVER: &'static str = r#"
  var sent
  var sendTheme = function () {
    var value = root.getAttribute('data-ds-theme-source')
    if (value === null || value === sent) return
    sent = value
    internals.invoke('desktop_set_theme', { source: value })
  }
  var observeTheme = function () {
    new MutationObserver(sendTheme).observe(root, { attributeFilter: ['data-ds-theme-source'] })
    sendTheme()
  }
  if (document.readyState === 'loading') window.addEventListener('DOMContentLoaded', observeTheme)
  else observeTheme()"#;

/// The end of the initialization script.
pub const INIT_SCRIPT_TAIL: &'static str = r#"
})()"#;

/// The native theme that the page asks for.
pub enum ThemeSource {
    Light,
    Dark,
    /// The theme of the operating system.
    System,
}

/// The `process.platform` value of an operating system.
pub open spec fn platform_of(os: Seq<char>) -> Seq<char> {
    if os == "macos"@ {
        "darwin"@
    } else if os == "windows"@ {
        "win32"@
    } else {
        os
    }
}

/// The script that runs ahead of every page script on an operating system.
pub open spec fn script_for(os: Seq<char>) -> Seq<char> {
    let observer = if os == "macos"@ {
        THEME_OBSERVER@
    } else {
        seq![]
    };
    INIT_SCRIPT_HEAD@ + crate::json::json_quoted(platform_of(os)) + INIT_SCRIPT_BODY@ + observer
        + INIT_SCRIPT_TAIL@
}

/// Whether the window may navigate to a URL.
pub open spec fn may_navigate(url: crate::url::UrlView) -> bool {
    ||| url.scheme == "dsh-app"@
    ||| {
        &&& url.scheme == "http"@ || url.scheme == "https"@
        &&& url.host == Some("127.0.0.1"@) || url.host == Some("localhost"@)
    }
}

/// The native theme for a theme source, or why there is none.
pub open spec fn theme_for(source: Seq<char>) -> Result<ThemeSource, Seq<char>> {
    if source == "light"@ {
        Ok(ThemeSource::Light)
    } else if source == "dark"@ {
        Ok(ThemeSource::Dark)
    } else if source == "system"@ {
        Ok(ThemeSource::System)
    } else {
        Err("dsh desktop tauri: unknown theme source "@ + source)
    }
}

/// The `process.platform` value the shared Web CSS branches on.
pub fn page_platform(os: &str) -> (platform: String)
    ensures
        platform@ == platform_of(os@),
{
    if same_text(os, "macos") {
        "darwin".to_owned()
    } else if same_text(os, "windows") {
        "win32".to_owned()
    } else {
        os.to_owned()
    }
}

/// The script around a quoted platform name.
pub fn script_around(platform: &str, observes_theme: bool) -> (script: String)
    ensures
        script@ == INIT_SCRIPT_HEAD@ + platform@ + INIT_SCRIPT_BODY@ + (if observes_theme {
            THEME_OBSERVER@
        } else {
            seq![]
        }) + INIT_SCRIPT_TAIL@,
{
    let mut script = INIT_SCRIPT_HEAD.to_owned();
    script.append(platform);
    script.append(INIT_SCRIPT_BODY);
    if observes_theme {
        script.append(THEME_OBSERVER);
    } else {
        assert(script@ + seq![] =~= script@);
    }
    script.append(INIT_SCRIPT_TAIL);
    script
}

/// Script installed ahead of every page script: the desktop bridge globals.
///
/// `dshDesktopBoot` (boot handshake), `dshDesktop` (product API stub),
/// `__DSH_DIRECTORY_PICKER__`, the `data-platform` mark, a polling
/// `EventSource` replacement for the Host's plugins-events stream (custom
/// protocols cannot stream), and, on macOS, the `data-ds-theme-source`
/// observer that keeps the native theme and sidebar vibrancy on the app
/// palette.
pub fn init_script(os: &str) -> (script: String)
    ensures
        script@ == script_for(os@),
        crate::json::json_parse(crate::json::json_quoted(platform_of(os@))) == Some(
            crate::json::JsonView::Text(platform_of(os@)),
        ),
{
    let platform = quoted(page_platform(os).as_str());
    script_around(platform.as_str(), same_text(os, "macos"))
}

/// Allow only application-document navigation and same-loopback HTTP.
pub fn navigation_allowed(url: &UrlParts) -> (allowed: bool)
    ensures
        allowed == may_navigate(url@),
{
    let scheme = url.scheme.as_str();
    if same_text(scheme, "dsh-app") {
        return true;
    }
    if same_text(scheme, "http") || same_text(scheme, "https") {
        return match &url.host {
            Some(host) => same_text(host.as_str(), "127.0.0.1") || same_text(
                host.as_str(),
                "localhost",
            ),
            None => false,
        };
    }
    false
}

/// The native theme that mirrors the Web UI theme source.
pub fn desktop_set_theme(source: &str) -> (theme: Result<ThemeSource, String>)
    ensures
        match theme {
            Ok(found) => theme_for(source@) == Ok::<ThemeSource, Seq<char>>(found),
            Err(message) => theme_for(source@) == Err::<ThemeSource, Seq<char>>(message@),
        },
{
    if same_text(source, "light") {
        Ok(ThemeSource::Light)
    } else if same_text(source, "dark") {
        Ok(ThemeSource::Dark)
    } else if same_text(source, "system") {
        Ok(ThemeSource::System)
    } else {
        let mut message: String = "dsh desktop tauri: unknown theme source ".to_owned();
        message.append(source);
        Err(message)
    }
}

/// The URL of the application document.
pub fn application_url() -> (url: String)
    ensures
        url@ == APP_ORIGIN@ + "/"@,
{
    let mut url = APP_ORIGIN.to_owned();
    url.append("/");
    url
}

} // verus!
