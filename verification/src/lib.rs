//! Verified core of a git-hook orchestrator for monorepos.
//!
//! The library models hook configurations, resolves which hooks apply to a
//! git event and a set of changed files, parses the output of the git
//! commands that report changes, and prepares shell-completion scripts.
//! Everything that talks to the operating system (running git, reading the
//! filesystem, spawning hooks) lives outside this crate and hands plain
//! values in.

pub mod capabilities;
pub mod changes;
pub mod completions;
pub mod config;
pub mod debug;
pub mod doctor;
pub mod errors;
pub mod hierarchical;
pub mod schedule;
pub mod template;
pub mod util;
