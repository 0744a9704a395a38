//! Session-scoped working-tree change tracker.
//!
//! A `GitDiffTracker` captures a baseline revision of a version-controlled
//! directory at session start and can later produce a single combined diff of
//! everything that changed since then: committed changes, uncommitted edits,
//! and files created during the session.  Change-notification helpers format
//! those diffs, executed commands, and approval requests as Markdown notes.

pub mod approval;
pub mod diff;
pub mod digest;
pub mod format;
pub mod host;
pub mod laws;
pub mod text;
pub mod tracker;
