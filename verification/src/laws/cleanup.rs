//! The work on a repository: which worktrees go, which stay, and what is recorded of each.
use crate::command::{CommandModel, OutcomeModel};
use crate::error::ErrorModel;
use crate::gc;
use crate::gc::{PrModel, Prerequisite, RepoModel, WorktreeModel};
use crate::logging::RecordModel;
use crate::repo_run;
use crate::repo_run::{ActionModel, Change, EventModel, ResultModel, RunModel};
use crate::text;
use vstd::prelude::*;

verus! {

/// `path (branch: branch, PR #number)`.
pub open spec fn removed_entry(path: Seq<char>, branch: Seq<char>, number: u64) -> Seq<char> {
    path + " (branch: "@ + branch + ", PR #"@ + text::decimal(number as nat) + ")"@
}

/// The worktree that is looked at has the branch `branch`, whatever it is called.
pub open spec fn looks_at(run: RunModel, path: Seq<char>, branch: Seq<char>) -> bool {
    &&& run.well_formed()
    &&& run.action() == (ActionModel::CheckBranch { path, branch })
}

/// Where a worktree is looked at, GitHub is asked about its branch if it has one, whatever it is
/// called, and no one is asked if it has none.
pub proof fn lemma_every_branch_is_asked_about(run: RunModel)
    requires
        run.well_formed(),
        run.stage is Looking,
    ensures
        ({
            let w = run.worktrees[run.current];
            &&& w.branch matches Some(branch) ==> looks_at(run, w.path, branch)
            &&& w.branch is None ==> run.action() == (ActionModel::NoteDetached { path: w.path })
        }),
{
}

/// A worktree whose branch has a merged pull request goes, whatever it and its branch are called: a
/// real run asks git to remove it, and where git has done so, to delete its branch, and then writes
/// that it is removed. A dry run writes the same and asks git for nothing.
pub proof fn lemma_merged_worktree_goes(
    run: RunModel,
    path: Seq<char>,
    branch: Seq<char>,
    pr: PrModel,
    now: Seq<char>,
    then_now: Seq<char>,
    last_now: Seq<char>,
)
    requires
        looks_at(run, path, branch),
    ensures
        ({
            let first = run.step(EventModel::Checked(Ok(Some(pr))), now);
            let second = first.run.step(EventModel::Removed(Ok(())), then_now);
            let third = second.run.step(EventModel::BranchDone, last_now);
            let written = |at: Seq<char>|
                RecordModel::Removed {
                    timestamp: at,
                    repo: run.repo.owner + "/"@ + run.repo.repo,
                    branch,
                    worktree: path,
                    pr_number: pr.number,
                    pr_url: pr.url,
                };
            let entry = Change::Removed(removed_entry(path, branch, pr.number));
            &&& !run.dry_run ==> {
                &&& first.run.action() == (ActionModel::RemoveWorktree { path })
                &&& first.record is None && first.change is Nothing
                &&& second.run.action() == (ActionModel::DeleteBranch { branch })
                &&& second.record is None && second.change is Nothing
                &&& third.record == Some(written(last_now)) && third.change == entry
                &&& third.run.current == run.current + 1 && third.run.worktrees == run.worktrees
            }
            &&& run.dry_run ==> {
                &&& first.record == Some(written(now)) && first.change == entry
                &&& first.run.current == run.current + 1 && first.run.worktrees == run.worktrees
            }
        }),
{
}

/// A worktree whose branch has no merged pull request stays, and so does one that git cannot remove
/// and one that GitHub says nothing of; each is recorded as what it is.
pub proof fn lemma_other_worktrees_stay(
    run: RunModel,
    path: Seq<char>,
    branch: Seq<char>,
    pr: PrModel,
    e: ErrorModel,
    now: Seq<char>,
)
    requires
        looks_at(run, path, branch),
    ensures
        ({
            let open_one = run.step(EventModel::Checked(Ok(None)), now);
            let unknown = run.step(EventModel::Checked(Err(e)), now);
            let stuck = run.step(EventModel::Checked(Ok(Some(pr))), now).run.step(EventModel::Removed(Err(e)), now);
            let repo = run.repo.owner + "/"@ + run.repo.repo;
            &&& open_one.record == Some(
                RecordModel::Skipped { timestamp: now, repo, branch, worktree: path, reason: "not_merged"@ },
            )
            &&& open_one.change == Change::Skipped(path + " (branch: "@ + branch + ", not merged)"@)
            &&& open_one.run.current == run.current + 1
            &&& unknown.record == Some(
                RecordModel::Error {
                    timestamp: now,
                    repo,
                    branch: Some(branch),
                    worktree: Some(path),
                    error: "Failed to check PR status: "@ + e.text,
                },
            )
            &&& unknown.change == Change::Failed(path + " (branch: "@ + branch + "): "@ + e.text)
            &&& unknown.run.current == run.current + 1
            &&& !run.dry_run ==> {
                &&& stuck.record == Some(
                    RecordModel::Error {
                        timestamp: now,
                        repo,
                        branch: Some(branch),
                        worktree: Some(path),
                        error: e.text,
                    },
                )
                &&& stuck.change == Change::Failed(path + ": "@ + e.text)
                &&& stuck.run.current == run.current + 1
            }
        }),
{
}

/// A worktree without a branch stays and is recorded as detached.
pub proof fn lemma_detached_worktree_stays(run: RunModel, path: Seq<char>, now: Seq<char>)
    requires
        run.well_formed(),
        run.action() == (ActionModel::NoteDetached { path }),
    ensures
        ({
            let step = run.step(EventModel::Noted, now);
            &&& step.record == Some(
                RecordModel::Skipped {
                    timestamp: now,
                    repo: run.repo.owner + "/"@ + run.repo.repo,
                    branch: "(detached)"@,
                    worktree: path,
                    reason: "detached HEAD"@,
                },
            )
            &&& step.change == Change::Skipped(path + " (detached HEAD)"@)
            &&& step.run.current == run.current + 1
        }),
{
}

/// The worktrees are looked at one after the other: where one is done the next one is asked about,
/// and behind the last one git prunes if something was removed and has nothing to do if not.
pub proof fn lemma_next_worktree_is_next(run: RunModel, event: EventModel, now: Seq<char>)
    requires
        run.well_formed(),
        run.step(event, now).run.current == run.current + 1,
    ensures
        ({
            let next = run.step(event, now).run;
            let removed = run.had_removal || event is BranchDone;
            &&& next.worktrees == run.worktrees && next.repo == run.repo && next.dry_run == run.dry_run
            &&& next.had_removal == removed
            &&& if next.current < next.worktrees.len() {
                let w = next.worktrees[next.current];
                match w.branch {
                    Some(branch) => next.action() == (ActionModel::CheckBranch { path: w.path, branch }),
                    None => next.action() == (ActionModel::NoteDetached { path: w.path }),
                }
            } else if removed {
                next.action() is Prune
            } else {
                next.action() is Finish
            }
        }),
{
}

/// A removal is recorded only where GitHub named the pull request or git has done its work, a skip
/// only where GitHub said that nothing is merged or there is no branch, and an error only where one
/// was answered.
pub proof fn lemma_records_come_from_answers(run: RunModel, event: EventModel, now: Seq<char>)
    requires
        run.well_formed(),
    ensures
        ({
            let w = run.worktrees[run.current];
            match run.step(event, now).record {
                None => true,
                Some(RecordModel::Removed { .. }) => if run.dry_run {
                    event matches EventModel::Checked(Ok(Some(_))) && w.branch is Some
                } else {
                    event is BranchDone && w.branch is Some
                },
                Some(RecordModel::Skipped { .. }) => {
                    ||| event matches EventModel::Checked(Ok(None)) && w.branch is Some
                    ||| event is Noted && w.branch is None
                },
                Some(RecordModel::Error { .. }) => {
                    ||| event matches EventModel::Listed(Err(_))
                    ||| event matches EventModel::Checked(Err(_))
                    ||| event matches EventModel::Removed(Err(_))
                },
                Some(RecordModel::Summary { .. }) => false,
            }
        }),
{
}

/// What was not asked for changes nothing.
pub proof fn lemma_stray_answers_change_nothing(run: RunModel, event: EventModel, now: Seq<char>)
    requires
        run.well_formed(),
        match run.action() {
            ActionModel::ListWorktrees => event !is Listed,
            ActionModel::NoteDetached { .. } => event !is Noted,
            ActionModel::CheckBranch { .. } => event !is Checked,
            ActionModel::RemoveWorktree { .. } => event !is Removed,
            ActionModel::DeleteBranch { .. } => event !is BranchDone,
            ActionModel::Prune => event !is PruneDone,
            ActionModel::Finish => true,
        },
    ensures
        run.step(event, now).run == run,
        run.step(event, now).change is Nothing,
        run.step(event, now).record is None,
{
}

/// The work begins with the list, and pruning ends it.
pub proof fn lemma_work_begins_and_ends(repo: RepoModel, dry_run: bool, run: RunModel, now: Seq<char>)
    requires
        run.well_formed(),
    ensures
        RunModel::start(repo, dry_run).action() is ListWorktrees,
        RunModel::start(repo, dry_run).repo == repo,
        RunModel::start(repo, dry_run).dry_run == dry_run,
        run.action() is Prune ==> run.step(EventModel::PruneDone, now).run.action() is Finish,
{
}

/// The worktrees that are looked at once a list has come.
pub open spec fn looked_at(repo: RepoModel, dry_run: bool, all: Seq<WorktreeModel>, now: Seq<char>) -> Seq<WorktreeModel> {
    RunModel::start(repo, dry_run).step(EventModel::Listed(Ok(all)), now).run.worktrees
}

/// Every worktree of a list but the main one is looked at, once and in its place, and all of them
/// are counted; the main one is not.
pub proof fn lemma_all_but_the_main_worktree_are_looked_at(
    repo: RepoModel,
    dry_run: bool,
    a: Seq<WorktreeModel>,
    b: Seq<WorktreeModel>,
    w: WorktreeModel,
    now: Seq<char>,
)
    ensures
        looked_at(repo, dry_run, Seq::empty(), now) == Seq::<WorktreeModel>::empty(),
        looked_at(repo, dry_run, seq![w], now) == if w.is_main { Seq::empty() } else { seq![w] },
        looked_at(repo, dry_run, a + b, now) == looked_at(repo, dry_run, a, now) + looked_at(repo, dry_run, b, now),
        RunModel::start(repo, dry_run).step(EventModel::Listed(Ok(a)), now).change == Change::Scanned(
            looked_at(repo, dry_run, a, now).len(),
        ),
        ({
            let run = RunModel::start(repo, dry_run).step(EventModel::Listed(Ok(a)), now).run;
            let ws = looked_at(repo, dry_run, a, now);
            &&& run.current == 0
            &&& ws.len() == 0 ==> run.action() is Finish
            &&& ws.len() > 0 ==> match ws[0].branch {
                Some(branch) => run.action() == (ActionModel::CheckBranch { path: ws[0].path, branch }),
                None => run.action() == (ActionModel::NoteDetached { path: ws[0].path }),
            }
        }),
{
    reveal(Seq::filter);
    let p = repo_run::is_extra();
    assert(Seq::<WorktreeModel>::empty().filter(p) =~= Seq::empty());
    assert(seq![w].drop_last() =~= Seq::empty());
    assert(seq![w].filter(p) =~= if w.is_main { Seq::empty() } else { seq![w] });
    lemma_filter_of_both(a, b, p);
}

/// A filter goes through a list from one end to the other.
pub proof fn lemma_filter_of_both<A>(a: Seq<A>, b: Seq<A>, p: spec_fn(A) -> bool)
    ensures
        (a + b).filter(p) == a.filter(p) + b.filter(p),
    decreases b.len(),
{
    reveal(Seq::filter);
    if b.len() == 0 {
        assert(a + b =~= a);
        assert(a.filter(p) + b.filter(p) =~= a.filter(p));
    } else {
        assert((a + b).drop_last() =~= a + b.drop_last());
        lemma_filter_of_both(a, b.drop_last(), p);
        assert((a + b).filter(p) =~= a.filter(p) + b.filter(p));
    }
}

/// A failure to list the worktrees is one error of the repository, and ends the work on it.
pub proof fn lemma_failed_list_ends_the_work(repo: RepoModel, dry_run: bool, e: ErrorModel, now: Seq<char>)
    ensures
        ({
            let step = RunModel::start(repo, dry_run).step(EventModel::Listed(Err(e)), now);
            &&& step.run.action() is Finish
            &&& step.change == Change::Failed(repo.path + ": "@ + e.text)
            &&& step.record == Some(
                RecordModel::Error {
                    timestamp: now,
                    repo: repo.owner + "/"@ + repo.repo,
                    branch: None,
                    worktree: None,
                    error: "Failed to list worktrees: "@ + e.text,
                },
            )
        }),
{
}

/// A change adds to one of the lists of a result and leaves the others.
pub proof fn lemma_changes_are_counted(result: ResultModel, n: nat, words: Seq<char>)
    ensures
        result.changed(Change::Nothing) == result,
        ({
            let next = result.changed(Change::Scanned(n));
            &&& next.scanned_worktrees == result.scanned_worktrees + n && next.scanned_repos == result.scanned_repos
            &&& next.removed == result.removed && next.skipped == result.skipped && next.errors == result.errors
        }),
        ({
            let next = result.changed(Change::Removed(words));
            &&& next.removed == result.removed + seq![words]
            &&& next.skipped == result.skipped && next.errors == result.errors
            &&& next.scanned_worktrees == result.scanned_worktrees && next.scanned_repos == result.scanned_repos
        }),
        ({
            let next = result.changed(Change::Skipped(words));
            &&& next.skipped == result.skipped + seq![words]
            &&& next.removed == result.removed && next.errors == result.errors
            &&& next.scanned_worktrees == result.scanned_worktrees && next.scanned_repos == result.scanned_repos
        }),
        ({
            let next = result.changed(Change::Failed(words));
            &&& next.errors == result.errors + seq![words]
            &&& next.removed == result.removed && next.skipped == result.skipped
            &&& next.scanned_worktrees == result.scanned_worktrees && next.scanned_repos == result.scanned_repos
        }),
{
    assert(result.removed.push(words) =~= result.removed + seq![words]);
    assert(result.skipped.push(words) =~= result.skipped + seq![words]);
    assert(result.errors.push(words) =~= result.errors + seq![words]);
}

/// The calls for a worktree and for a branch say which one, behind words that are the same for all;
/// those without one are always the same call. All of them are calls of git, and the question about
/// a branch is one to GitHub that names the repository and the branch.
pub proof fn lemma_calls_name_their_object(
    a: Seq<char>,
    b: Seq<char>,
    owner: Seq<char>,
    repo: Seq<char>,
    other: Seq<char>,
    one: Seq<char>,
)
    ensures
        gc::worktree_remove_call(a).program == "git"@,
        gc::worktree_remove_call(a).args == seq!["worktree"@, "remove"@, "--force"@, a],
        gc::branch_delete_call(b).program == "git"@,
        gc::branch_delete_call(b).args == seq!["branch"@, "-D"@, b],
        gc::worktree_list_call().program == "git"@,
        gc::worktree_list_call().args == seq!["worktree"@, "list"@, "--porcelain"@],
        gc::prune_call().program == "git"@,
        gc::prune_call().args == seq!["worktree"@, "prune"@],
        gc::remote_url_call().program == "git"@,
        gc::remote_url_call().args == seq!["remote"@, "get-url"@, "origin"@],
        ({
            let p = gc::merged_pr_call(owner, repo, b);
            let q = gc::merged_pr_call(other, one, a);
            &&& p.program == "gh"@ && q.program == "gh"@
            &&& p.args.len() == 12 && q.args.len() == 12
            &&& p.args[3] == owner + "/"@ + repo && p.args[5] == b
            &&& forall|i: int| 0 <= i < 12 && i != 3 && i != 5 ==> #[trigger] p.args[i] == q.args[i]
        }),
{
}

/// The first of the pull requests that GitHub lists is the merged one; an empty list says that
/// nothing is merged, and anything else is an error.
pub proof fn lemma_first_listed_pull_request_counts(
    stdout: Seq<char>,
    stderr: Seq<char>,
    first: PrModel,
    rest: Seq<PrModel>,
    cause: Seq<char>,
    listed: Result<Seq<PrModel>, Seq<char>>,
)
    ensures
        ({
            let done = OutcomeModel::Exited { success: true, stdout, stderr };
            let failed = OutcomeModel::Exited { success: false, stdout, stderr };
            let lost = OutcomeModel::NotStarted { cause };
            &&& gc::merged_answer(done, Ok(seq![first] + rest)) == Ok::<_, ErrorModel>(Some(first))
            &&& gc::merged_answer(done, Ok(Seq::empty())) == Ok::<_, ErrorModel>(None::<PrModel>)
            &&& gc::merged_answer(done, Err(cause)) matches Err(e) && e.cause == Some(cause) && e.text
                == "Failed to parse gh output: "@ + stdout
            &&& gc::merged_answer(failed, listed) matches Err(e) && e.text == "gh pr list failed: "@ + stderr && e.cause
                is None
            &&& gc::merged_answer(lost, listed) matches Err(e) && e.text == "Failed to run gh pr list"@ && e.cause
                == Some(cause)
        }),
{
    reveal_strlit("gh pr list failed: ");
    reveal_strlit("gh pr list");
    reveal_strlit(" failed: ");
    assert("gh pr list failed: "@ =~= "gh pr list"@ + " failed: "@);
}

/// A call of git for a worktree succeeded where git says so and not otherwise.
pub proof fn lemma_git_says_whether_it_succeeded(stdout: Seq<char>, stderr: Seq<char>, cause: Seq<char>)
    ensures
        ({
            let done = OutcomeModel::Exited { success: true, stdout, stderr };
            let failed = OutcomeModel::Exited { success: false, stdout, stderr };
            let lost = OutcomeModel::NotStarted { cause };
            &&& gc::removal_answer(done) is Ok && gc::prune_answer(done) is Ok
            &&& gc::removal_answer(failed) matches Err(e) && e.text == "git worktree remove failed: "@ + stderr
            &&& gc::removal_answer(lost) matches Err(e) && e.cause == Some(cause)
            &&& gc::prune_answer(failed) matches Err(e) && e.text == "git worktree prune failed: "@ + stderr
            &&& gc::prune_answer(lost) matches Err(e) && e.cause == Some(cause)
            &&& gc::listing_answer(Seq::empty(), failed) matches Err(e) && e.text == "git worktree list failed: "@
                + stderr
            &&& gc::listing_answer(Seq::empty(), lost) matches Err(e) && e.cause == Some(cause)
        }),
{
    reveal_strlit("git worktree remove failed: ");
    reveal_strlit("git worktree remove");
    reveal_strlit("git worktree prune failed: ");
    reveal_strlit("git worktree prune");
    reveal_strlit("git worktree list failed: ");
    reveal_strlit("git worktree list");
    reveal_strlit(" failed: ");
    assert("git worktree remove failed: "@ =~= "git worktree remove"@ + " failed: "@);
    assert("git worktree prune failed: "@ =~= "git worktree prune"@ + " failed: "@);
    assert("git worktree list failed: "@ =~= "git worktree list"@ + " failed: "@);
}

/// A cleanup needs git, the command line of GitHub and a login there, which are looked for in this
/// order: each that is there leads to the next one, the last one ends the search, and one that is
/// not there is named.
pub proof fn lemma_prerequisites_are_looked_for_in_turn(outcome: OutcomeModel)
    ensures
        Prerequisite::Git.probe() == (CommandModel { program: "git"@, args: seq!["--version"@] }),
        Prerequisite::GitHubCli.probe() == (CommandModel { program: "gh"@, args: seq!["--version"@] }),
        Prerequisite::GitHubLogin.probe() == (CommandModel { program: "gh"@, args: seq!["auth"@, "status"@] }),
        (outcome matches OutcomeModel::Exited { success: true, .. }) ==> {
            &&& Prerequisite::Git.verdict(outcome) == Ok::<_, ErrorModel>(Some(Prerequisite::GitHubCli))
            &&& Prerequisite::GitHubCli.verdict(outcome) == Ok::<_, ErrorModel>(Some(Prerequisite::GitHubLogin))
            &&& Prerequisite::GitHubLogin.verdict(outcome) == Ok::<_, ErrorModel>(
                None::<Prerequisite>,
            )
        },
        !(outcome matches OutcomeModel::Exited { success: true, .. }) ==> {
            &&& Prerequisite::Git.verdict(outcome) matches Err(e) && e.text == "git is not installed or not in PATH"@
            &&& Prerequisite::GitHubCli.verdict(outcome) matches Err(e) && e.text
                == "gh is not installed or not in PATH"@
            &&& Prerequisite::GitHubLogin.verdict(outcome) is Err
        },
        (outcome matches OutcomeModel::Exited { success: false, .. }) ==> Prerequisite::GitHubLogin.verdict(
            outcome,
        )->Err_0.text == "gh is not authenticated. Run `gh auth login` first."@,
        outcome matches OutcomeModel::NotStarted { cause } ==> Prerequisite::GitHubLogin.verdict(outcome)->Err_0 == (
        ErrorModel { text: "Failed to check gh auth"@, cause: Some(cause) }),
{
}

} // verus!
