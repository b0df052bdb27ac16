//! A platform-independent core for reading and writing the system clipboard.
//!
//! The crate holds the decisions of a clipboard client: how a target is named
//! on each native subsystem, what a native answer means, in which order native
//! requests are made, and when a wait for a target ends. It performs no
//! input or output itself: every function takes what the native layer
//! answered and says what to ask next or what to hand to the caller.

pub mod common;
pub mod linux_clipboard;
pub mod nop_clipboard;
pub mod offer;
pub mod osx_clipboard;
pub mod script;
pub mod text;
pub mod wait;
pub mod wayland_clipboard;
pub mod windows_clipboard;
pub mod x11_clipboard;

pub use common::{ClipboardError, ClipboardProvider, TargetMimeType};
