//! The records of the run log, one per line of the log file.
use vstd::prelude::*;

verus! {

/// What happened to one worktree, or in one run.
#[derive(Debug)]
pub enum LogRecord {
    Removed {
        timestamp: String,
        repo: String,
        branch: String,
        worktree: String,
        pr_number: u64,
        pr_url: String,
    },
    Skipped {
        timestamp: String,
        repo: String,
        branch: String,
        worktree: String,
        reason: String,
    },
    Error {
        timestamp: String,
        repo: String,
        branch: Option<String>,
        worktree: Option<String>,
        error: String,
    },
    Summary {
        timestamp: String,
        scanned_repos: usize,
        scanned_worktrees: usize,
        removed_count: usize,
        skipped_count: usize,
        error_count: usize,
        dry_run: bool,
    },
}

/// What a [`LogRecord`] says.
pub enum RecordModel {
    Removed {
        timestamp: Seq<char>,
        repo: Seq<char>,
        branch: Seq<char>,
        worktree: Seq<char>,
        pr_number: u64,
        pr_url: Seq<char>,
    },
    Skipped {
        timestamp: Seq<char>,
        repo: Seq<char>,
        branch: Seq<char>,
        worktree: Seq<char>,
        reason: Seq<char>,
    },
    Error {
        timestamp: Seq<char>,
        repo: Seq<char>,
        branch: Option<Seq<char>>,
        worktree: Option<Seq<char>>,
        error: Seq<char>,
    },
    Summary {
        timestamp: Seq<char>,
        scanned_repos: usize,
        scanned_worktrees: usize,
        removed_count: usize,
        skipped_count: usize,
        error_count: usize,
        dry_run: bool,
    },
}

impl RecordModel {
    /// The record without its time.
    pub open spec fn untimed(self) -> RecordModel {
        match self {
            RecordModel::Removed { repo, branch, worktree, pr_number, pr_url, .. } => RecordModel::Removed {
                timestamp: Seq::empty(),
                repo,
                branch,
                worktree,
                pr_number,
                pr_url,
            },
            RecordModel::Skipped { repo, branch, worktree, reason, .. } => RecordModel::Skipped {
                timestamp: Seq::empty(),
                repo,
                branch,
                worktree,
                reason,
            },
            RecordModel::Error { repo, branch, worktree, error, .. } => RecordModel::Error {
                timestamp: Seq::empty(),
                repo,
                branch,
                worktree,
                error,
            },
            RecordModel::Summary {
                scanned_repos,
                scanned_worktrees,
                removed_count,
                skipped_count,
                error_count,
                dry_run,
                ..
            } => RecordModel::Summary {
                timestamp: Seq::empty(),
                scanned_repos,
                scanned_worktrees,
                removed_count,
                skipped_count,
                error_count,
                dry_run,
            },
        }
    }
}

impl View for LogRecord {
    type V = RecordModel;

    open spec fn view(&self) -> RecordModel {
        match self {
            LogRecord::Removed { timestamp, repo, branch, worktree, pr_number, pr_url } => RecordModel::Removed {
                timestamp: timestamp@,
                repo: repo@,
                branch: branch@,
                worktree: worktree@,
                pr_number: *pr_number,
                pr_url: pr_url@,
            },
            LogRecord::Skipped { timestamp, repo, branch, worktree, reason } => RecordModel::Skipped {
                timestamp: timestamp@,
                repo: repo@,
                branch: branch@,
                worktree: worktree@,
                reason: reason@,
            },
            LogRecord::Error { timestamp, repo, branch, worktree, error } => RecordModel::Error {
                timestamp: timestamp@,
                repo: repo@,
                branch: branch.deep_view(),
                worktree: worktree.deep_view(),
                error: error@,
            },
            LogRecord::Summary {
                timestamp,
                scanned_repos,
                scanned_worktrees,
                removed_count,
                skipped_count,
                error_count,
                dry_run,
            } => RecordModel::Summary {
                timestamp: timestamp@,
                scanned_repos: *scanned_repos,
                scanned_worktrees: *scanned_worktrees,
                removed_count: *removed_count,
                skipped_count: *skipped_count,
                error_count: *error_count,
                dry_run: *dry_run,
            },
        }
    }
}

impl DeepView for LogRecord {
    type V = RecordModel;

    open spec fn deep_view(&self) -> RecordModel {
        self@
    }
}

} // verus!
