//! The application window and the texts that the rules are stated over.

use dsh_desktop_tauri::json::text_member;
use dsh_desktop_tauri::shell::{
    application_url, desktop_set_theme, init_script, navigation_allowed, page_platform,
    script_around, ThemeSource, APP_ORIGIN,
};
use dsh_desktop_tauri::text::{
    decimal, keep_last, replace_first, same_text, starts_with, strip_prefixes, text_before,
    text_of_bytes, trim, white_space,
};
use dsh_desktop_tauri::url::UrlParts;

fn allowed(url: &str) -> bool {
    navigation_allowed(&UrlParts::parse(url).unwrap())
}

#[test]
fn navigation_stays_at_home() {
    assert!(allowed("dsh-app://app/"));
    assert!(allowed("dsh-app://elsewhere/x"));
    assert!(allowed("http://127.0.0.1:19387/x"));
    assert!(allowed("https://localhost/"));
    assert!(allowed("HTTP://LOCALHOST"));
    assert!(!allowed("http://example.com/"));
    assert!(!allowed("http://127.0.0.1.example.com/"));
    assert!(!allowed("http://[::1]/"));
    assert!(!allowed("ftp://127.0.0.1/"));
    assert!(!allowed("file:///etc/passwd"));
    assert!(!allowed("about:blank"));
    assert!(!allowed("javascript:alert(1)"));
}

#[test]
fn urls_are_read_in_parts() {
    let url = UrlParts::parse("HTTP://User@Example.COM:8080/a?b#c").unwrap();
    assert_eq!(url.scheme, "http");
    assert_eq!(url.host, Some(String::from("example.com")));
    assert_eq!(url.port, Some(8080));
    let known = UrlParts::parse("wss://h").unwrap();
    assert_eq!(known.port, Some(443));
    let bare = UrlParts::parse("mailto:x").unwrap();
    assert_eq!(bare.host, None);
    assert_eq!(bare.port, None);
    assert_eq!(UrlParts::parse("").err(), Some(String::from("relative URL without a base")));
}

#[test]
fn platforms_have_their_process_names() {
    assert_eq!(page_platform("macos"), "darwin");
    assert_eq!(page_platform("windows"), "win32");
    assert_eq!(page_platform("linux"), "linux");
    assert_eq!(page_platform("freebsd"), "freebsd");
}

#[test]
fn the_script_marks_the_platform() {
    let linux = init_script("linux");
    assert!(linux.starts_with(";(function () {\n  'use strict'\n"));
    assert!(linux.contains("root.setAttribute('data-platform', \"linux\")\n"));
    assert!(linux.contains("globalThis.dshDesktop = { protocolVersion: 1 }"));
    assert!(linux.contains("internals.invoke('desktop_boot_failed', { message: String(message) })"));
    assert!(linux.ends_with("desktop_pick_directory') },\n  }\n})()"));
    assert!(!linux.contains("MutationObserver"));
    let mac = init_script("macos");
    assert!(mac.contains("root.setAttribute('data-platform', \"darwin\")\n"));
    assert!(mac.contains("  }\n  var sent\n  var sendTheme"));
    assert!(mac.ends_with("  else observeTheme()\n})()"));
    assert_eq!(script_around("\"linux\"", false), linux);
    assert_eq!(script_around("\"darwin\"", true), mac);
}

#[test]
fn themes_have_three_sources() {
    assert!(matches!(desktop_set_theme("light"), Ok(ThemeSource::Light)));
    assert!(matches!(desktop_set_theme("dark"), Ok(ThemeSource::Dark)));
    assert!(matches!(desktop_set_theme("system"), Ok(ThemeSource::System)));
    assert_eq!(
        desktop_set_theme("Light").err(),
        Some(String::from("dsh desktop tauri: unknown theme source Light"))
    );
}

#[test]
fn the_application_has_one_origin() {
    assert_eq!(APP_ORIGIN, "dsh-app://app");
    assert_eq!(application_url(), "dsh-app://app/");
}

#[test]
fn members_are_strings_or_nothing() {
    let value: serde_json::Value = serde_json::from_str(r#"{"a":"x","b":1}"#).unwrap();
    assert_eq!(text_member(&value, "a"), Some(String::from("x")));
    assert_eq!(text_member(&value, "b"), None);
    assert_eq!(text_member(&value, "c"), None);
    assert_eq!(text_member(&serde_json::Value::Null, "a"), None);
}

#[test]
fn texts_agree_with_std() {
    let texts = ["", " ", "a", " a ", "\u{3000}a b\u{85}", "http://http://x", "aXbX", "\u{e9}\n"];
    for text in texts {
        assert_eq!(trim(text), text.trim());
        assert_eq!(strip_prefixes(text, "http://"), text.trim_start_matches("http://"));
        assert_eq!(replace_first(text, "X", "yy"), text.replacen("X", "yy", 1));
        assert_eq!(replace_first(text, "", "yy"), text.replacen("", "yy", 1));
        assert_eq!(text_before(text, 'X'), text.split('X').next().unwrap());
        for other in texts {
            assert_eq!(same_text(text, other), text == other);
            assert_eq!(starts_with(text, other), text.starts_with(other));
        }
    }
}

#[test]
fn white_space_agrees_with_std() {
    for code in 0..0x11000u32 {
        if let Some(c) = char::from_u32(code) {
            assert_eq!(white_space(c), c.is_whitespace());
        }
    }
}

#[test]
fn the_last_characters_are_kept() {
    assert_eq!(keep_last("abc", 2), "bc");
    assert_eq!(keep_last("abc", 3), "abc");
    assert_eq!(keep_last("abc", 9), "abc");
    assert_eq!(keep_last("\u{e9}\u{1f600}z", 2), "\u{1f600}z");
    assert_eq!(keep_last("abc", 0), "");
}

#[test]
fn numbers_are_written_in_decimal() {
    for value in [0u16, 7, 10, 99, 100, 303, 1000, 65535] {
        assert_eq!(decimal(value), format!("{value}"));
    }
}

#[test]
fn bytes_are_read_as_text() {
    assert_eq!(text_of_bytes("caf\u{e9}".as_bytes()), "caf\u{e9}");
    assert_eq!(text_of_bytes(b"a\xffb"), "a\u{fffd}b");
    assert_eq!(text_of_bytes(b""), "");
}
