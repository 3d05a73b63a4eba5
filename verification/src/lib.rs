//! A git-hooks orchestration library: hook definitions are read from a
//! declarative configuration (local overrides plus imported external
//! sources), merged by hook name, and dispatched on a lifecycle event.
//! The library holds the resolution and planning logic; running the
//! planned commands and talking to the filesystem is left to the caller.

pub mod config;
pub mod dispatch;
pub mod engine;
pub mod events;
pub mod git;
pub mod shell;
pub mod tokens;
pub mod utils;
