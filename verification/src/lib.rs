//! A small dotfiles manager: it resolves declared source paths against the
//! user's home directory, plans recursive copies of files and directory
//! trees, keys sources by their path segments for selective installs, and
//! prepares the version-control commands that keep the managed repository in
//! sync.
//!
//! The path algebra, the copy planning, the key index and the command
//! planning are verified; the thin shell around them (argument parsing,
//! logging, the actual filesystem and subprocess calls) lives outside this
//! library and consumes the plans it produces.

pub mod backup;
pub mod clean;
pub mod config;
pub mod copy;
pub mod errors;
pub mod git_repo;
pub mod index;
pub mod init;
pub mod install;
pub mod paths;
pub mod sync;
