use worktree_gc::error::Error;
use worktree_gc::gc::{GhPr, RepoInfo, WorktreeEntry};
use worktree_gc::logging::LogRecord;
use worktree_gc::repo_run::{begin_run, GcResult, RepoAction, RepoEvent, RepoRun};
use worktree_gc::summary::{summary_lines, summary_record, Level};

fn repo() -> RepoInfo {
    RepoInfo { path: "/b/r".to_string(), owner: "o".to_string(), repo: "r".to_string() }
}

fn tree(path: &str, branch: Option<&str>, is_main: bool) -> WorktreeEntry {
    WorktreeEntry { path: path.to_string(), branch: branch.map(|b| b.to_string()), is_main }
}

fn pr(number: u64) -> GhPr {
    GhPr { number, url: format!("url{number}") }
}

fn error(text: &str) -> Error {
    Error::new(text.to_string())
}

/// Plays a run in which branches named `merged...` have a pull request, the worktree `/locked`
/// cannot be removed and the branch `offline` cannot be checked. Gives the words of the actions.
fn play(dry_run: bool, trees: Result<Vec<WorktreeEntry>, Error>) -> (Vec<String>, GcResult, Vec<LogRecord>) {
    let mut run = RepoRun::new(repo(), dry_run);
    let mut result = GcResult::default();
    let mut records = Vec::new();
    let mut actions = Vec::new();
    let mut trees = Some(trees);
    loop {
        let (word, event) = match run.next_action() {
            RepoAction::ListWorktrees => ("list".to_string(), RepoEvent::Listed(trees.take().unwrap())),
            RepoAction::NoteDetached { path } => (format!("note {path}"), RepoEvent::Noted),
            RepoAction::CheckBranch { branch, .. } => {
                let answer = if branch.starts_with("merged") {
                    Ok(Some(pr(42)))
                } else if branch == "offline" {
                    Err(error("no network"))
                } else {
                    Ok(None)
                };
                (format!("check {branch}"), RepoEvent::Checked(answer))
            }
            RepoAction::RemoveWorktree { path } => {
                let answer = if path == "/locked" { Err(error("it is locked")) } else { Ok(()) };
                (format!("remove {path}"), RepoEvent::Removed(answer))
            }
            RepoAction::DeleteBranch { branch } => (format!("delete {branch}"), RepoEvent::BranchDone),
            RepoAction::Prune => ("prune".to_string(), RepoEvent::PruneDone),
            RepoAction::Finish => break,
        };
        actions.push(word);
        let (next, record) = run.step(event, "now".to_string(), &mut result);
        records.extend(record);
        run = next;
    }
    (actions, result, records)
}

fn mixed() -> Vec<WorktreeEntry> {
    vec![
        tree("/b/r", Some("merged-main"), true),
        tree("/w1", Some("merged-1"), false),
        tree("/w2", None, false),
        tree("/w3", Some("open"), false),
        tree("/locked", Some("merged-2"), false),
        tree("/w4", Some("offline"), false),
        tree("/w5", Some("merged-3"), false),
    ]
}

#[test]
fn merged_worktrees_go_and_the_rest_stays() {
    let (actions, result, records) = play(false, Ok(mixed()));
    assert_eq!(
        actions,
        vec![
            "list",
            "check merged-1",
            "remove /w1",
            "delete merged-1",
            "note /w2",
            "check open",
            "check merged-2",
            "remove /locked",
            "check offline",
            "check merged-3",
            "remove /w5",
            "delete merged-3",
            "prune",
        ]
    );
    assert_eq!(result.scanned_worktrees, 6);
    assert_eq!(
        result.removed,
        vec!["/w1 (branch: merged-1, PR #42)", "/w5 (branch: merged-3, PR #42)"]
    );
    assert_eq!(result.skipped, vec!["/w2 (detached HEAD)", "/w3 (branch: open, not merged)"]);
    assert_eq!(
        result.errors,
        vec!["/locked: it is locked", "/w4 (branch: offline): no network"]
    );
    assert_eq!(records.len(), 6);
}

#[test]
fn a_dry_run_only_asks() {
    let (actions, result, records) = play(true, Ok(mixed()));
    assert_eq!(
        actions,
        vec![
            "list",
            "check merged-1",
            "note /w2",
            "check open",
            "check merged-2",
            "check offline",
            "check merged-3",
        ]
    );
    assert_eq!(result.removed.len(), 3);
    assert_eq!(result.skipped.len(), 2);
    assert_eq!(result.errors.len(), 1);
    assert_eq!(result.removed.len() + result.skipped.len() + result.errors.len(), result.scanned_worktrees);
    assert_eq!(records.len(), 6);
}

#[test]
fn a_dry_run_tells_what_a_real_run_does() {
    let trees = || mixed().into_iter().filter(|tree| tree.path != "/locked").collect::<Vec<_>>();
    let (_, result, records) = play(false, Ok(trees()));
    let (_, rehearsed, told) = play(true, Ok(trees()));
    assert_eq!(rehearsed.removed, result.removed);
    assert_eq!(rehearsed.skipped, result.skipped);
    assert_eq!(rehearsed.errors, result.errors);
    assert_eq!(rehearsed.scanned_worktrees, result.scanned_worktrees);
    assert_eq!(format!("{told:?}"), format!("{records:?}"));
}

#[test]
fn earlier_results_stay_and_records_follow_the_worktrees() {
    let mut result = GcResult { removed: vec!["/before".to_string()], ..GcResult::default() };
    let run = RepoRun::new(repo(), true);
    let trees = vec![tree("/w1", Some("x"), false), tree("/w2", Some("y"), false)];
    let (run, _) = run.step(RepoEvent::Listed(Ok(trees)), "t1".to_string(), &mut result);
    let (run, first) = run.step(RepoEvent::Checked(Ok(None)), "t2".to_string(), &mut result);
    let (_, second) = run.step(RepoEvent::Checked(Ok(Some(pr(7)))), "t3".to_string(), &mut result);
    assert!(matches!(first, Some(LogRecord::Skipped { worktree, .. }) if worktree == "/w1"));
    assert!(matches!(second, Some(LogRecord::Removed { worktree, .. }) if worktree == "/w2"));
    assert_eq!(result.removed, vec!["/before", "/w2 (branch: y, PR #7)"]);
    assert_eq!(result.skipped, vec!["/w1 (branch: x, not merged)"]);
}

#[test]
fn without_a_removal_nothing_is_pruned() {
    let (actions, result, _) = play(false, Ok(vec![tree("/b/r", Some("m"), true), tree("/w", Some("open"), false)]));
    assert_eq!(actions, vec!["list", "check open"]);
    assert_eq!(result.scanned_worktrees, 1);
}

#[test]
fn a_repository_with_its_main_worktree_alone_is_done_at_once() {
    let (actions, result, records) = play(false, Ok(vec![tree("/b/r", Some("merged"), true)]));
    assert_eq!(actions, vec!["list"]);
    assert_eq!(result.scanned_worktrees, 0);
    assert!(records.is_empty());
}

#[test]
fn a_failed_listing_is_one_error() {
    let (actions, result, records) = play(false, Err(error("git worktree list failed: x")));
    assert_eq!(actions, vec!["list"]);
    assert_eq!(result.errors, vec!["/b/r: git worktree list failed: x"]);
    assert_eq!(result.scanned_worktrees, 0);
    match &records[..] {
        [LogRecord::Error { timestamp, repo, branch, worktree, error }] => {
            assert_eq!(timestamp, "now");
            assert_eq!(repo, "o/r");
            assert!(branch.is_none() && worktree.is_none());
            assert_eq!(error, "Failed to list worktrees: git worktree list failed: x");
        }
        other => panic!("{other:?}"),
    }
}

#[test]
fn records_say_what_happened() {
    let (_, _, records) = play(false, Ok(mixed()));
    match &records[0] {
        LogRecord::Removed { timestamp, repo, branch, worktree, pr_number, pr_url } => {
            assert_eq!((timestamp.as_str(), repo.as_str()), ("now", "o/r"));
            assert_eq!((branch.as_str(), worktree.as_str()), ("merged-1", "/w1"));
            assert_eq!((*pr_number, pr_url.as_str()), (42, "url42"));
        }
        other => panic!("{other:?}"),
    }
    match &records[1] {
        LogRecord::Skipped { branch, worktree, reason, .. } => {
            assert_eq!(branch, "(detached)");
            assert_eq!(worktree, "/w2");
            assert_eq!(reason, "detached HEAD");
        }
        other => panic!("{other:?}"),
    }
    match &records[2] {
        LogRecord::Skipped { branch, worktree, reason, .. } => {
            assert_eq!((branch.as_str(), worktree.as_str(), reason.as_str()), ("open", "/w3", "not_merged"));
        }
        other => panic!("{other:?}"),
    }
    match &records[3] {
        LogRecord::Error { branch, worktree, error, .. } => {
            assert_eq!(branch.as_deref(), Some("merged-2"));
            assert_eq!(worktree.as_deref(), Some("/locked"));
            assert_eq!(error, "it is locked");
        }
        other => panic!("{other:?}"),
    }
    match &records[4] {
        LogRecord::Error { branch, error, .. } => {
            assert_eq!(branch.as_deref(), Some("offline"));
            assert_eq!(error, "Failed to check PR status: no network");
        }
        other => panic!("{other:?}"),
    }
}

#[test]
fn an_answer_to_another_question_changes_nothing() {
    let mut result = GcResult::default();
    let run = RepoRun::new(repo(), false);
    let (run, record) = run.step(RepoEvent::Removed(Ok(())), "now".to_string(), &mut result);
    assert!(record.is_none());
    assert!(matches!(run.next_action(), RepoAction::ListWorktrees));
    let (run, _) = run.step(
        RepoEvent::Listed(Ok(vec![tree("/w", Some("b"), false)])),
        "now".to_string(),
        &mut result,
    );
    let (run, record) = run.step(RepoEvent::BranchDone, "now".to_string(), &mut result);
    assert!(record.is_none());
    assert!(matches!(run.next_action(), RepoAction::CheckBranch { .. }));
    assert!(result.removed.is_empty());
}

#[test]
fn a_run_begins_with_its_repositories_and_ends_with_their_records_counted() {
    let begun = begin_run(&vec![repo(), repo(), repo()]);
    assert_eq!((begun.scanned_repos, begun.scanned_worktrees), (3, 0));
    assert!(begun.removed.is_empty() && begun.skipped.is_empty() && begun.errors.is_empty());
    assert_eq!(begin_run(&Vec::new()).scanned_repos, 0);

    let mut result = begin_run(&vec![repo(), repo()]);
    let mut records = Vec::new();
    for trees in [vec![tree("/w1", Some("x"), false), tree("/w2", None, false)], vec![tree("/w3", Some("y"), false)]] {
        let mut run = RepoRun::new(repo(), true);
        let mut trees = Some(trees);
        loop {
            let event = match run.next_action() {
                RepoAction::ListWorktrees => RepoEvent::Listed(Ok(trees.take().unwrap())),
                RepoAction::NoteDetached { .. } => RepoEvent::Noted,
                RepoAction::CheckBranch { .. } => RepoEvent::Checked(Ok(Some(pr(1)))),
                RepoAction::Finish => break,
                other => panic!("{other:?}"),
            };
            let (next, record) = run.step(event, "now".to_string(), &mut result);
            records.extend(record);
            run = next;
        }
    }
    let removed = records.iter().filter(|r| matches!(r, LogRecord::Removed { .. })).count();
    let skipped = records.iter().filter(|r| matches!(r, LogRecord::Skipped { .. })).count();
    assert_eq!((removed, skipped, records.len()), (2, 1, 3));
    match summary_record(&result, true, "t".to_string()) {
        LogRecord::Summary { scanned_repos, removed_count, skipped_count, error_count, dry_run, .. } => {
            assert_eq!((scanned_repos, removed_count, skipped_count, error_count), (2, 2, 1, 0));
            assert!(dry_run);
        }
        other => panic!("{other:?}"),
    }
}

#[test]
fn the_summary_counts_and_lists() {
    let (_, mut result, _) = play(false, Ok(mixed()));
    result.scanned_repos = 3;
    match summary_record(&result, false, "t".to_string()) {
        LogRecord::Summary {
            timestamp,
            scanned_repos,
            scanned_worktrees,
            removed_count,
            skipped_count,
            error_count,
            dry_run,
        } => {
            assert_eq!(timestamp, "t");
            assert_eq!((scanned_repos, scanned_worktrees), (3, 6));
            assert_eq!((removed_count, skipped_count, error_count), (2, 2, 2));
            assert!(!dry_run);
        }
        other => panic!("{other:?}"),
    }
    let lines = summary_lines(&result, false);
    let texts: Vec<&str> = lines.iter().map(|line| line.text.as_str()).collect();
    assert_eq!(
        texts,
        vec![
            "--- Summary ---",
            "Repos scanned: 3",
            "Worktrees checked: 6",
            "Removed: 2 ",
            "  - /w1 (branch: merged-1, PR #42)",
            "  - /w5 (branch: merged-3, PR #42)",
            "Errors: 2",
            "  - /locked: it is locked",
            "  - /w4 (branch: offline): no network",
        ]
    );
    assert_eq!(lines[5].level, Level::Info);
    assert_eq!(lines[6].level, Level::Warning);
    let quiet = summary_lines(&GcResult::default(), true);
    assert_eq!(quiet.len(), 4);
    assert_eq!(quiet[3].text, "Removed: 0 (dry-run)");
}
