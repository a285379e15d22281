//! Navigation and viewport engine for a terminal viewer of TASD recordings:
//! tool-assisted-speedrun input streams made of typed records.
//!
//! The crate models the record stream, derives the navigable frame count and
//! the set of controller ports from it, and drives a vim-style interaction
//! loop: a bounded cursor, a scrolling viewport kept consistent with the
//! cursor, a numeric repeat-count buffer, a mode state machine, and a small
//! command-line interpreter. Every operation is total: out-of-range input is
//! clamped or ignored, never an error.

pub mod command;
pub mod cursor;
pub mod format;
pub mod keys;
pub mod record;
pub mod state;
