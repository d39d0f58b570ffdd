//! Snapshot, restore and retention logic for a tmux environment.
//!
//! The crate holds the decisions of a backup tool for tmux: decoding window
//! layouts, assembling snapshots, sequencing the commands that rebuild a
//! session, and choosing which backups to keep.

pub mod archive;
pub mod backup;
pub mod brackets;
pub mod calendar;
pub mod catalog;
pub mod client;
pub mod compaction;
pub mod config;
pub mod descriptor;
pub mod error;
pub mod ids;
pub mod layout;
pub mod pane;
pub mod record;
pub mod restore;
pub mod save;
pub mod server;
pub mod session;
pub mod text;
pub mod utils;
pub mod window;
