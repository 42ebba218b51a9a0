//! A multi-repository git orchestrator, written without I/O.
//!
//! The library decides which git commands to run and reads what they print;
//! running them (and touching the filesystem) is left to the caller.
//!
//! - `git`: the argument vector of each git operation, and readers of its output.
//! - `manifest`: the manifest's entries, their targets, and the manifest file's text.
//! - `sync`: the synchronisation of one repository, as a state machine.
//! - `compare`: the ahead/behind/changes summary of one repository, likewise.
//! - `runner`: handing repositories to a bounded number of workers.
//! - `snapshot`: the manifest of the working trees found under a directory.
//! - `list_files`: the tracked files of every repository, seen from the root.
//! - `clean`: the working trees that the manifest no longer lists.
//! - `text`: trimming, lines, searching and replacing, on characters.

pub mod clean;
pub mod compare;
pub mod git;
pub mod list_files;
pub mod manifest;
pub mod runner;
pub mod snapshot;
pub mod sync;
pub mod text;
