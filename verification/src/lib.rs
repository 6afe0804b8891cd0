//! Verified core of a standup-notes tool: it decides which dated note file to
//! open and what seed content the note starts with, and it phrases the
//! messages of the one-time directory initialization.
//!
//! All decisions are pure functions over plain values (paths and file
//! contents as strings, existence of files as booleans); the thin binary
//! around this library performs the filesystem reads, runs the editor, and
//! hands the observed values in.

pub mod config;
pub mod standup;
pub mod text;
