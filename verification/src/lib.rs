//! emux: the verified core of a terminal multiplexer.
//!
//! The VT escape-sequence parser and its parameter accumulator, the terminal
//! screen with its grid, scrollback and search, the pane model, key binding
//! parsing and dispatch, the search and copy input modes, pane geometry and
//! mouse handling, damage-tracked rendering decisions, the bottom bar text,
//! the daemon's answers to client messages, and the release bookkeeping of
//! self-upgrade, each with a contract proved by Verus.

pub mod cells;
pub mod config;
pub mod cursor;
pub mod daemon;
pub mod geometry;
pub mod grid;
pub mod ipc;
pub mod keys;
pub mod modes;
pub mod mouse;
pub mod operations;
pub mod pane;
pub mod params;
pub mod parser;
pub mod pattern;
pub mod pty;
pub mod render;
pub mod schedule;
pub mod screen;
pub mod search;
pub mod statusbar;
pub mod text;
pub mod upgrade;
