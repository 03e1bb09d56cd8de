use worktree_gc::cli::HistoryLast;
use worktree_gc::history::show_history;
use worktree_gc::logging::LogRecord;

fn removed(repo: &str) -> Option<LogRecord> {
    Some(LogRecord::Removed {
        timestamp: "2026-04-17T09:00:01+09:00".to_string(),
        repo: repo.to_string(),
        branch: "feat/795".to_string(),
        worktree: "/w".to_string(),
        pr_number: 42,
        pr_url: "https://github.com/x".to_string(),
    })
}

fn skipped(repo: &str) -> Option<LogRecord> {
    Some(LogRecord::Skipped {
        timestamp: "t2".to_string(),
        repo: repo.to_string(),
        branch: "develop".to_string(),
        worktree: "/w".to_string(),
        reason: "not_merged".to_string(),
    })
}

fn error(repo: &str, branch: Option<&str>) -> Option<LogRecord> {
    Some(LogRecord::Error {
        timestamp: "t3".to_string(),
        repo: repo.to_string(),
        branch: branch.map(|b| b.to_string()),
        worktree: None,
        error: "boom".to_string(),
    })
}

fn summary(dry_run: bool) -> Option<LogRecord> {
    Some(LogRecord::Summary {
        timestamp: "t4".to_string(),
        scanned_repos: 38,
        scanned_worktrees: 36,
        removed_count: 15,
        skipped_count: 21,
        error_count: 0,
        dry_run,
    })
}

fn log() -> Vec<Option<LogRecord>> {
    vec![
        removed("CSA-MLT/mspf-auth"),
        None,
        skipped("CSA-MLT/mspf-core"),
        error("CSA-MLT/mspf-iam", None),
        summary(false),
    ]
}

#[test]
fn test_execute_history_command_uses_defaults() {
    let lines = show_history("/tmp/does-not-exist.jsonl", None, HistoryLast::Count(10), None, None);
    assert_eq!(
        lines,
        vec![
            "No history found (log file does not exist: /tmp/does-not-exist.jsonl)",
            "Run `worktree-gc` or `worktree-gc --dry-run` to generate logs.",
        ]
    );
}

#[test]
fn all_records_are_shown_with_their_counts() {
    let lines = show_history("/l", Some(log()), HistoryLast::All, None, None);
    assert_eq!(
        lines,
        vec![
            "Showing 4 of 4 records (from /l)",
            "",
            "  \x1b[1;36m2026-04-17T09:00:01+09:00\x1b[0m  \x1b[32m🗑  REMOVED\x1b[0m  CSA-MLT/mspf-auth  branch:feat/795  PR #42 https://github.com/x",
            "  \x1b[1;36mt2\x1b[0m  \x1b[33m⏭  SKIPPED\x1b[0m  CSA-MLT/mspf-core  branch:develop  reason:not_merged",
            "  \x1b[1;36mt3\x1b[0m  \x1b[31m❌ ERROR\x1b[0m    CSA-MLT/mspf-iam  branch:-  boom",
            "  \x1b[1;36mt4\x1b[0m  \x1b[1m📊 SUMMARY\x1b[0m  repos:38  worktrees:36  \x1b[32mremoved:15\x1b[0m  skipped:21  \x1b[31merrors:0\x1b[0m",
            "",
            "  Shown: 1 runs, 1 removals, 1 errors",
        ]
    );
}

#[test]
fn the_last_records_are_shown() {
    let lines = show_history("/l", Some(log()), HistoryLast::Count(2), None, None);
    assert_eq!(lines[0], "Showing 2 of 4 records (from /l)");
    assert_eq!(lines.len(), 6);
    assert!(lines[2].contains("ERROR") && lines[3].contains("SUMMARY"));
    let none = show_history("/l", Some(log()), HistoryLast::Count(0), None, None);
    assert_eq!(none[0], "Showing 0 of 4 records (from /l)");
    assert_eq!(none.last().unwrap(), "  Shown: 0 runs, 0 removals, 0 errors");
}

#[test]
fn records_are_filtered_by_action_and_repository() {
    let only = |action: Option<&str>, repo: Option<&str>| {
        show_history("/l", Some(log()), HistoryLast::All, action, repo)
    };
    assert_eq!(only(Some("removed"), None)[0], "Showing 1 of 1 records (from /l)");
    assert_eq!(only(Some("skipped"), None)[0], "Showing 1 of 1 records (from /l)");
    assert_eq!(only(Some("error"), None)[0], "Showing 1 of 1 records (from /l)");
    assert_eq!(only(Some("summary"), None)[0], "Showing 1 of 1 records (from /l)");
    assert_eq!(only(Some("Removed"), None), vec!["No matching records found."]);
    let auth = only(None, Some("mspf-auth"));
    assert_eq!(auth[0], "Showing 2 of 2 records (from /l)");
    assert!(auth[2].contains("REMOVED") && auth[3].contains("SUMMARY"));
    assert_eq!(only(Some("error"), Some("auth")), vec!["No matching records found."]);
    assert_eq!(only(None, Some("")).len(), 8);
}

#[test]
fn a_dry_run_and_a_known_branch_are_shown() {
    let lines =
        show_history("/l", Some(vec![error("o/r", Some("b")), summary(true)]), HistoryLast::All, None, None);
    assert!(lines[2].ends_with("o/r  branch:b  boom"));
    assert!(lines[3].contains("SUMMARY (dry-run)"));
}

#[test]
fn a_log_without_records_has_nothing_to_show() {
    assert_eq!(
        show_history("/l", Some(vec![None, None]), HistoryLast::All, None, None),
        vec!["No matching records found."]
    );
}
