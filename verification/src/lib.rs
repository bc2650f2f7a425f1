//! Core logic of a small interactive shell: a raw-mode line editor modelled as
//! a state machine over input events, a bounded command history with on-disk
//! mirroring, a fixed alias table, prefix autocompletion, and a dispatcher
//! that turns a finalized line into an action. All terminal, file and process
//! I/O is left to the surrounding binary; this crate holds the decisions.

pub mod aliases;
pub mod complete;
pub mod dispatch;
pub mod editor;
pub mod history;
pub mod text;
