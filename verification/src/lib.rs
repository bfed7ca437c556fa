//! A headless terminal host: the session that drives a virtual terminal and
//! fans its events out to subscribers, the coordinator that decides what each
//! turn of the event loop does, and the rules of the PTY driver around them.

pub mod api;
pub mod bus;
pub mod cli;
pub mod clock;
pub mod command;
pub mod coordinator;
pub mod json;
pub mod pty;
pub mod session;
pub mod style;
pub mod text;
pub mod vt;

pub use command::{Command, InputSeq};
pub use session::{Event, Session};
