//! The rules of the Tauri desktop shell: what it serves to the page, what it
//! forwards to the Desktop Host and with which credentials, how it supervises
//! and stops the Host, and how it bridges the Host's streams.
//!
//! The shell holds every credential; the page never sees one. Windows, files,
//! processes and sockets belong to the application around this library. It
//! performs the steps that the functions here hand out, and hands back what
//! came of them.
//!
//! - [`web_document`] answers the requests of the application document.
//! - [`host`] supervises the Desktop Host.
//! - [`state`] holds the boot facts that the others share.
//! - [`paths`] resolves the development roots.
//! - [`hmr_bridge`] queues the Host's plugins-events frames.
//! - [`ws_bridge`] relays the remote stream mux.
//! - [`shell`] has the window's script, navigation fence and theme.
//! - [`laws`] says what the functions promise, in plain terms.
//! - [`text`], [`path`], [`url`], [`headers`] and [`json`] are what these are
//!   stated over.

pub mod headers;
pub mod hmr_bridge;
pub mod host;
pub mod json;
pub mod laws;
pub mod path;
pub mod paths;
pub mod shell;
pub mod state;
pub mod text;
pub mod url;
pub mod web_document;
pub mod ws_bridge;
