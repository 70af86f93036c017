//! Status-line segments for a coding-assistant session: the context-window
//! segment (token usage of the latest turn and the session's prompt-cache hit
//! rate, read from the session transcript) and the usage-quota segment
//! (remaining session and weekly quota with their reset times).
//!
//! Everything here works on plain values; reading files, talking to the
//! network and floating-point rendering happen in the program around it.

pub mod text;
pub mod segment;
pub mod context_window;
pub mod usage;
