//! Decisions behind cleaning up git worktrees whose pull requests have been merged.
use vstd::prelude::*;

pub mod cli;
pub mod command;
pub mod config;
pub mod defaults;
pub mod error;
pub mod gc;
pub mod history;
pub mod launchd;
pub mod laws;
pub mod logging;
pub mod names;
pub mod paths;
pub mod plan;
pub mod platform;
pub mod platform_scheduler;
pub mod plist;
pub mod repo_run;
pub mod schedule;
pub mod schedule_dialog;
pub mod schedule_names;
pub mod scheduler;
pub mod summary;
pub mod systemd;
pub mod text;
pub mod ui;
pub mod update;
pub mod workspace;
pub mod workspace_dialog;

verus! {

} // verus!
