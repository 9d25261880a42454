//! Laws of the application window.

use vstd::prelude::*;

use crate::shell::{
    application_url, desktop_set_theme, init_script, navigation_allowed, page_platform,
    script_around, ThemeSource,
};
use crate::url::UrlParts;

verus! {

/// Three systems have a platform name, and every other one is its own.
pub proof fn law_platforms_keep_their_names(os: &str, platform: String)
    requires
        call_ensures(page_platform, (os,), platform),
    ensures
        os@ == "macos"@ ==> platform@ == "darwin"@,
        os@ == "windows"@ ==> platform@ == "win32"@,
        os@ != "macos"@ && os@ != "windows"@ ==> platform@ == os@,
{
    reveal_strlit("macos");
    reveal_strlit("windows");
    assert("macos"@.len() != "windows"@.len());
}

/// The script up to the platform name.
pub open spec fn opening() -> Seq<char> {
    r#";(function () {
  'use strict'
  var root = document.documentElement
  if (root !== null) root.setAttribute('data-platform', "#@
}

/// The script behind the platform name: the desktop globals, the polled events
/// and the boot bridge.
pub open spec fn bridge() -> Seq<char> {
    r#")
  var internals = globalThis.__TAURI_INTERNALS__
  globalThis.dshDesktop = { protocolVersion: 1 }
  // The custom protocol answers with complete bodies, so the Host's
  // plugins-events stream cannot pass through it. The shell holds the stream
  // (hmr_bridge) and the page polls it; graph frames are full snapshots, so
  // polling preserves the reconcile semantics.
  var NativeEventSource = globalThis.EventSource
  var PollingEventSource = function () {
    var listeners = []
    var stopped = false
    var timer = null
    this.addEventListener = function (type, listener) {
      if (type === 'message' && typeof listener === 'function') listeners.push(listener)
    }
    this.close = function () {
      if (stopped) return
      stopped = true
      if (timer !== null) clearInterval(timer)
    }
    timer = setInterval(function () {
      if (stopped) return
      var invoke = globalThis.__TAURI_INTERNALS__ === undefined ? undefined : globalThis.__TAURI_INTERNALS__.invoke
      if (invoke === undefined) return
      invoke('desktop_hmr_poll').then(function (frames) {
        for (var i = 0; i < frames.length; i += 1) {
          var event = { data: frames[i] }
          for (var j = 0; j < listeners.length; j += 1) listeners[j](event)
        }
      }).catch(function () {})
    }, 1000)
  }
  globalThis.EventSource = function (url) {
    if (String(url).indexOf('/plugins/events') !== -1) return new PollingEventSource()
    return NativeEventSource === undefined ? undefined : new NativeEventSource(url)
  }
  if (internals === undefined || typeof internals.invoke !== 'function') return
  globalThis.dshDesktopBoot = {
    ready: function () { return internals.invoke('desktop_boot') },
    failed: function (message) { return internals.invoke('desktop_boot_failed', { message: String(message) }) },
  }
  globalThis.__DSH_DIRECTORY_PICKER__ = {
    pick: function () { return internals.invoke('desktop_pick_directory') },
  }"#@
}

/// The part of the script that reports the theme of the page.
pub open spec fn theme_watch() -> Seq<char> {
    r#"
  var sent
  var sendTheme = function () {
    var value = root.getAttribute('data-ds-theme-source')
    if (value === null || value === sent) return
    sent = value
    internals.invoke('desktop_set_theme', { source: value })
  }
  var observeTheme = function () {
    new MutationObserver(sendTheme).observe(root, { attributeFilter: ['data-ds-theme-source'] })
    sendTheme()
  }
  if (document.readyState === 'loading') window.addEventListener('DOMContentLoaded', observeTheme)
  else observeTheme()"#@
}

/// The end of the script.
pub open spec fn closing() -> Seq<char> {
    r#"
})()"#@
}

/// The script holds the platform name it is given whole, between the parts that
/// never change, and watches the theme where it is told to.
pub proof fn law_scripts_hold_the_platform(
    platform: &str,
    watching: String,
    plain: String,
)
    requires
        call_ensures(script_around, (platform, true), watching),
        call_ensures(script_around, (platform, false), plain),
    ensures
        watching@ == opening() + platform@ + bridge()
            + theme_watch() + closing(),
        plain@ == opening() + platform@ + bridge()
            + closing(),
{
    let front = crate::shell::INIT_SCRIPT_HEAD@ + platform@ + crate::shell::INIT_SCRIPT_BODY@;
    assert(front + Seq::<char>::empty() =~= front);
}

/// The script of a system is that around its quoted platform name, and the theme
/// is watched on macOS alone.
pub proof fn law_systems_have_their_scripts(
    os: &str,
    platform: String,
    quoted: &str,
    script: String,
    watching: String,
    plain: String,
)
    requires
        call_ensures(init_script, (os,), script),
        call_ensures(page_platform, (os,), platform),
        quoted@ == crate::json::json_quoted(platform@),
        call_ensures(script_around, (quoted, true), watching),
        call_ensures(script_around, (quoted, false), plain),
    ensures
        os@ == "macos"@ ==> script@ == watching@,
        os@ != "macos"@ ==> script@ == plain@,
        crate::json::json_parse(quoted@) == Some(crate::json::JsonView::Text(platform@)),
{
}

/// The window goes to the application's own pages and over HTTP to the loopback,
/// and nowhere else.
pub proof fn law_navigation_is_fenced(url: &UrlParts, allowed: bool)
    requires
        call_ensures(navigation_allowed, (url,), allowed),
    ensures
        allowed <==> url.scheme@ == "dsh-app"@ || ((url.scheme@ == "http"@ || url.scheme@
            == "https"@) && (url.host matches Some(host) && (host@ == "127.0.0.1"@ || host@
            == "localhost"@))),
{
}

/// The theme is one of three, and a source that is none is named whole.
pub proof fn law_themes_are_three(source: &str, theme: Result<ThemeSource, String>)
    requires
        call_ensures(desktop_set_theme, (source,), theme),
    ensures
        source@ == "light"@ ==> theme == Ok::<ThemeSource, String>(ThemeSource::Light),
        source@ == "dark"@ ==> theme == Ok::<ThemeSource, String>(ThemeSource::Dark),
        source@ == "system"@ ==> theme == Ok::<ThemeSource, String>(ThemeSource::System),
        source@ != "light"@ && source@ != "dark"@ && source@ != "system"@ ==> (
        theme matches Err(message) && message@ == "dsh desktop tauri: unknown theme source "@
            + source@),
{
    reveal_strlit("light");
    reveal_strlit("dark");
    reveal_strlit("system");
    assert("light"@.len() == 5 && "dark"@.len() == 4 && "system"@.len() == 6);
}

/// The application document is at the root of its origin.
pub proof fn law_the_application_has_one_url(url: String)
    requires
        call_ensures(application_url, (), url),
    ensures
        url@ == "dsh-app://app"@ + "/"@,
{
}

} // verus!
