//! Core of a command-line task tracker that keeps an ordered list of tasks
//! in a JSON document.
//!
//! The library owns everything that can be stated and proved: the task type
//! and its display rule, the JSON rendering and parsing of the persisted
//! document (with a proved save/load round trip), and the three operations
//! `add`, `list` and `complete` together with the command dispatch.  Reading
//! and writing the actual file, and printing, are left to the binary around
//! the library.
//!
//! Known limitation: the persisted file carries no lock.  Invocations that
//! overlap race on it, and the last writer wins; nothing here prevents that.

pub mod chars;
pub mod parse;
pub mod render;
pub mod roundtrip;
pub mod store;
pub mod strutil;
pub mod task;
