//! Verified core of a disk-cleanup tool: it locates software project
//! directories in a filesystem tree, classifies them by their build-tool
//! markers, measures how much disk space their disposable artifacts occupy,
//! and drives an interactive menu through which an operator deletes those
//! artifacts.
//!
//! The library works on a pure snapshot of the filesystem ([`fstree::FsNode`]);
//! reading the real filesystem, terminal I/O and the actual removal of files
//! are left to the surrounding binary, which feeds results back in as plain
//! values.

pub mod format;
pub mod fstree;
pub mod menu;
pub mod project;
pub mod project_types;
pub mod search;
pub mod strutil;
