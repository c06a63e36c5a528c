//! Verified core of a client for the i3 window manager's IPC protocol.
//!
//! The crate covers the two pieces with real design content: the wire-level
//! framing of requests and responses (`codec`), and the algorithm that picks
//! which sibling window should receive focus next (`tree`, `command`). All
//! socket I/O and JSON decoding live outside this crate, in the thin program
//! layer that drives it.

pub mod codec;
pub mod command;
pub mod tree;
