//! What the functions of the library promise, in plain terms.
//!
//! Each law takes the arguments of a call and what `call_ensures` says may
//! come of it, and states the outcome over texts, bytes and header values
//! alone, or how the outcomes of two calls relate.

pub mod document;
pub mod events;
pub mod host;
pub mod paths;
pub mod roots;
pub mod state;
pub mod streams;
pub mod text;
pub mod window;
