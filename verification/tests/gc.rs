use worktree_gc::command::{CommandLine, Outcome};
use worktree_gc::gc::{
    branch_delete_command, check_directory, check_prerequisites, find_repos, github_repos, is_branch_merged,
    list_worktrees, merged_pr_command, parse_github_remote, parse_owner_repo, parse_worktree_porcelain,
    prune_command, prune_worktrees, remote_url_command, remove_worktree, worktree_list_command,
    worktree_remove_command, DirectoryEntry, GhPr, Prerequisite,
};

fn done(stdout: &str) -> Outcome {
    Outcome::Exited { success: true, stdout: stdout.to_string(), stderr: String::new() }
}

fn failed(stderr: &str) -> Outcome {
    Outcome::Exited { success: false, stdout: String::new(), stderr: stderr.to_string() }
}

fn not_started() -> Outcome {
    Outcome::NotStarted { cause: "no such file".to_string() }
}

fn words(command: &CommandLine) -> String {
    let mut all = vec![command.program.clone()];
    all.extend(command.args.iter().cloned());
    all.join(" ")
}

#[test]
fn test_parse_owner_repo_https() {
    let (owner, repo) = parse_owner_repo("https://github.com/CSA-MLT/mspf-core.git").unwrap();
    assert_eq!(owner, "CSA-MLT");
    assert_eq!(repo, "mspf-core");
}

#[test]
fn test_parse_owner_repo_https_no_git() {
    let (owner, repo) = parse_owner_repo("https://github.com/CSA-MLT/mspf-core").unwrap();
    assert_eq!(owner, "CSA-MLT");
    assert_eq!(repo, "mspf-core");
}

#[test]
fn test_parse_owner_repo_ssh() {
    let (owner, repo) = parse_owner_repo("git@github.com:octocat/Hello-World.git").unwrap();
    assert_eq!(owner, "octocat");
    assert_eq!(repo, "Hello-World");
}

#[test]
fn test_parse_owner_repo_invalid() {
    assert!(parse_owner_repo("https://gitlab.com/foo/bar.git").is_err());
}

#[test]
fn test_parse_worktree_porcelain() {
    let input = "\
worktree /home/user/prog/mspf-core
HEAD bd1c7ce3a
branch refs/heads/develop

worktree /home/user/prog/mspf-core-fix-lint
HEAD 580f761a2
branch refs/heads/fix/lint-gocognit

worktree /home/user/prog/mspf-core-detached
HEAD aaa111bbb
detached

";
    let entries = parse_worktree_porcelain(input, "/home/user/prog/mspf-core").unwrap();

    assert_eq!(entries.len(), 3);

    assert!(entries[0].is_main);
    assert_eq!(entries[0].branch.as_deref(), Some("develop"));

    assert!(!entries[1].is_main);
    assert_eq!(entries[1].branch.as_deref(), Some("fix/lint-gocognit"));
    assert_eq!(entries[1].path, "/home/user/prog/mspf-core-fix-lint");

    assert!(!entries[2].is_main);
    assert!(entries[2].branch.is_none());
}

#[test]
fn test_parse_worktree_no_trailing_newline() {
    let input = "\
worktree /repo
HEAD abc
branch refs/heads/main

worktree /repo-wt
HEAD def
branch refs/heads/feat";

    let entries = parse_worktree_porcelain(input, "/repo").unwrap();
    assert_eq!(entries.len(), 2);
    assert_eq!(entries[1].branch.as_deref(), Some("feat"));
}

#[test]
fn a_block_without_a_path_is_no_worktree() {
    let input = "branch refs/heads/stray\n\nworktree /a\nworktree /b\nbranch refs/heads/x\nbranch refs/heads/y\n";
    let entries = parse_worktree_porcelain(input, "/b/").unwrap();
    assert_eq!(entries.len(), 1);
    assert_eq!(entries[0].path, "/b");
    assert_eq!(entries[0].branch.as_deref(), Some("y"));
    assert!(entries[0].is_main);
    assert!(parse_worktree_porcelain("", "/b").unwrap().is_empty());
}

#[test]
fn blocks_are_read_whatever_else_they_tell() {
    let input = "worktree /bare\nbare\n\nworktree /w\nbranch refs/heads/x\nlocked moved\n\nworktree /d\nHEAD abc\ndetached\nprunable gone\n\n";
    let entries = parse_worktree_porcelain(input, "/bare").unwrap();
    let read: Vec<(&str, Option<&str>, bool)> =
        entries.iter().map(|e| (e.path.as_str(), e.branch.as_deref(), e.is_main)).collect();
    assert_eq!(read, vec![("/bare", None, true), ("/w", Some("x"), false), ("/d", None, false)]);
}

#[test]
fn the_first_listed_worktree_is_the_main_one() {
    let stdout = "worktree /real/r\nbranch refs/heads/merged\n\nworktree /w\nbranch refs/heads/x\n\nworktree /link/r\n";
    let entries = list_worktrees("/link/r", done(stdout)).unwrap();
    let main: Vec<bool> = entries.iter().map(|e| e.is_main).collect();
    assert_eq!(main, vec![true, false, true]);
    assert_eq!((entries[0].path.as_str(), entries[0].branch.as_deref()), ("/real/r", Some("merged")));
    assert!(list_worktrees("/r", done("")).unwrap().is_empty());
}

#[test]
fn refused_remotes_have_their_words() {
    assert_eq!(
        parse_owner_repo("https://gitlab.com/foo/bar.git").unwrap_err().message(),
        "Not a GitHub URL: https://gitlab.com/foo/bar.git"
    );
    for url in [
        "https://github.com/",
        "https://github.com/owner",
        "https://github.com/owner/",
        "git@github.com:/repo",
        "git@github.com:owner/.git",
    ] {
        assert_eq!(
            parse_owner_repo(url).unwrap_err().message(),
            format!("Cannot parse owner/repo from: {url}")
        );
    }
}

#[test]
fn every_git_ending_goes_and_deeper_paths_stay() {
    let (owner, repo) = parse_owner_repo("https://github.com/o/r.git.git").unwrap();
    assert_eq!((owner.as_str(), repo.as_str()), ("o", "r"));
    let (owner, repo) = parse_owner_repo("git@github.com:o/group/r").unwrap();
    assert_eq!((owner.as_str(), repo.as_str()), ("o", "group/r"));
}

#[test]
fn commands_ask_what_they_should() {
    assert_eq!(words(&remote_url_command()), "git remote get-url origin");
    assert_eq!(words(&worktree_list_command()), "git worktree list --porcelain");
    assert_eq!(words(&worktree_remove_command("/w t")), "git worktree remove --force /w t");
    assert_eq!(worktree_remove_command("/w t").args.len(), 4);
    assert_eq!(words(&branch_delete_command("feat/x")), "git branch -D feat/x");
    assert_eq!(words(&prune_command()), "git worktree prune");
    assert_eq!(
        words(&merged_pr_command("o", "r", "b")),
        "gh pr list --repo o/r --head b --state merged --json number,url --limit 1"
    );
}

#[test]
fn answers_are_read() {
    let (owner, repo) = parse_github_remote("/r", &done(" https://github.com/o/r.git\n")).unwrap();
    assert_eq!((owner.as_str(), repo.as_str()), ("o", "r"));
    assert_eq!(
        parse_github_remote("/r", &failed("no remote")).unwrap_err().message(),
        "git remote get-url failed for /r"
    );
    assert_eq!(
        parse_github_remote("/r", &not_started()).unwrap_err().message(),
        "Failed to run git remote get-url"
    );
    assert_eq!(list_worktrees("/r", done("worktree /r\n\nworktree /w\n")).unwrap().len(), 2);
    assert_eq!(
        list_worktrees("/r", failed("boom")).unwrap_err().message(),
        "git worktree list failed: boom"
    );
    assert_eq!(
        list_worktrees("/r", not_started()).unwrap_err().message(),
        "Failed to run git worktree list"
    );
    assert!(remove_worktree(done("")).is_ok());
    assert_eq!(
        remove_worktree(failed("locked")).unwrap_err().message(),
        "git worktree remove failed: locked"
    );
    assert_eq!(
        remove_worktree(not_started()).unwrap_err().message(),
        "Failed to run git worktree remove"
    );
    assert!(prune_worktrees(done("")).is_ok());
    assert_eq!(
        prune_worktrees(failed("x")).unwrap_err().message(),
        "git worktree prune failed: x"
    );
    assert_eq!(
        prune_worktrees(not_started()).unwrap_err().message(),
        "Failed to run git worktree prune"
    );
}

fn unparsed() -> Result<Vec<GhPr>, String> {
    Err("expected value".to_string())
}

#[test]
fn errors_keep_their_cause() {
    for e in [
        parse_github_remote("/r", &not_started()).unwrap_err(),
        list_worktrees("/r", not_started()).unwrap_err(),
        remove_worktree(not_started()).unwrap_err(),
        prune_worktrees(not_started()).unwrap_err(),
        is_branch_merged(not_started(), unparsed()).unwrap_err(),
        check_prerequisites(Prerequisite::GitHubLogin, &not_started()).unwrap_err(),
    ] {
        assert_eq!(e.cause(), Some("no such file"), "{e:?}");
    }
    assert_eq!(is_branch_merged(done("oops"), unparsed()).unwrap_err().cause(), Some("expected value"));
    for e in [
        parse_owner_repo("x").unwrap_err(),
        list_worktrees("/r", failed("boom")).unwrap_err(),
        is_branch_merged(failed("offline"), unparsed()).unwrap_err(),
        check_prerequisites(Prerequisite::Git, &not_started()).unwrap_err(),
    ] {
        assert_eq!(e.cause(), None, "{e:?}");
    }
}

#[test]
fn the_first_merged_pull_request_counts() {
    let prs = vec![
        GhPr { number: 42, url: "u42".to_string() },
        GhPr { number: 7, url: "u7".to_string() },
    ];
    let pr = is_branch_merged(done("[..]"), Ok(prs)).unwrap().unwrap();
    assert_eq!((pr.number, pr.url.as_str()), (42, "u42"));
    assert!(is_branch_merged(done("[]"), Ok(Vec::new())).unwrap().is_none());
    assert_eq!(
        is_branch_merged(done("oops"), unparsed()).unwrap_err().message(),
        "Failed to parse gh output: oops"
    );
    assert_eq!(
        is_branch_merged(failed("offline"), unparsed()).unwrap_err().message(),
        "gh pr list failed: offline"
    );
    assert_eq!(
        is_branch_merged(not_started(), unparsed()).unwrap_err().message(),
        "Failed to run gh pr list"
    );
}

#[test]
fn repositories_are_directories_with_a_git_directory() {
    let entry = |path: &str, is_dir: bool, has_git_dir: bool| DirectoryEntry {
        path: path.to_string(),
        is_dir,
        has_git_dir,
    };
    let found = find_repos(vec![
        entry("/b/z", true, true),
        entry("/b/file", false, false),
        entry("/b/a", true, true),
        entry("/b/worktree", true, false),
        entry("/b/a-b", true, true),
    ]);
    assert_eq!(found, vec!["/b/a", "/b/a-b", "/b/z"]);
}

#[test]
fn repositories_elsewhere_are_skipped_with_a_word() {
    let (repos, skipped) = github_repos(vec![
        ("/b/a".to_string(), done("git@github.com:o/a.git\n")),
        ("/b/b".to_string(), done("https://example.org/o/b\n")),
        ("/b/c".to_string(), failed("")),
        ("/b/d".to_string(), done("https://github.com/o/d\n")),
    ]);
    assert_eq!(
        repos.iter().map(|r| (r.path.as_str(), r.owner.as_str(), r.repo.as_str())).collect::<Vec<_>>(),
        vec![("/b/a", "o", "a"), ("/b/d", "o", "d")]
    );
    assert_eq!(
        skipped,
        vec![
            "Skipping /b/b (not a GitHub repo: Not a GitHub URL: https://example.org/o/b)",
            "Skipping /b/c (not a GitHub repo: git remote get-url failed for /b/c)",
        ]
    );
}

#[test]
fn prerequisites_are_looked_for_in_turn() {
    assert_eq!(words(&Prerequisite::Git.probe_command()), "git --version");
    assert_eq!(words(&Prerequisite::GitHubCli.probe_command()), "gh --version");
    assert_eq!(words(&Prerequisite::GitHubLogin.probe_command()), "gh auth status");
    assert_eq!(
        check_prerequisites(Prerequisite::Git, &done("")).unwrap(),
        Some(Prerequisite::GitHubCli)
    );
    assert_eq!(
        check_prerequisites(Prerequisite::GitHubCli, &done("")).unwrap(),
        Some(Prerequisite::GitHubLogin)
    );
    assert_eq!(check_prerequisites(Prerequisite::GitHubLogin, &done("")).unwrap(), None);
    for outcome in [not_started(), failed("")] {
        assert_eq!(
            check_prerequisites(Prerequisite::Git, &outcome).unwrap_err().message(),
            "git is not installed or not in PATH"
        );
        assert_eq!(
            check_prerequisites(Prerequisite::GitHubCli, &outcome).unwrap_err().message(),
            "gh is not installed or not in PATH"
        );
    }
    assert_eq!(
        check_prerequisites(Prerequisite::GitHubLogin, &not_started()).unwrap_err().message(),
        "Failed to check gh auth"
    );
    assert_eq!(
        check_prerequisites(Prerequisite::GitHubLogin, &failed("")).unwrap_err().message(),
        "gh is not authenticated. Run `gh auth login` first."
    );
}

#[test]
fn a_missing_directory_is_refused() {
    assert!(check_directory("/b", true).is_ok());
    assert_eq!(check_directory("/b", false).unwrap_err().message(), "Directory does not exist: /b");
}
