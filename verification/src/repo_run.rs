//! The work on one repository, as a sequence of questions to git and GitHub and their answers.
use crate::error::{Error, ErrorModel};
use crate::gc;
use crate::gc::{GhPr, PrModel, RepoInfo, RepoModel, WorktreeEntry, WorktreeModel};
use crate::logging::{LogRecord, RecordModel};
use crate::names;
use crate::text;
use vstd::prelude::*;

verus! {

/// What a run has done so far.
#[derive(Debug)]
pub struct GcResult {
    pub scanned_repos: usize,
    pub scanned_worktrees: usize,
    pub removed: Vec<String>,
    pub skipped: Vec<String>,
    pub errors: Vec<String>,
}

/// What a [`GcResult`] says.
#[verifier::ext_equal]
pub struct ResultModel {
    pub scanned_repos: nat,
    pub scanned_worktrees: nat,
    pub removed: Seq<Seq<char>>,
    pub skipped: Seq<Seq<char>>,
    pub errors: Seq<Seq<char>>,
}

impl View for GcResult {
    type V = ResultModel;

    open spec fn view(&self) -> ResultModel {
        ResultModel {
            scanned_repos: self.scanned_repos as nat,
            scanned_worktrees: self.scanned_worktrees as nat,
            removed: self.removed.deep_view(),
            skipped: self.skipped.deep_view(),
            errors: self.errors.deep_view(),
        }
    }
}

impl Default for GcResult {
    fn default() -> (r: GcResult)
        ensures
            r@ == (ResultModel {
                scanned_repos: 0,
                scanned_worktrees: 0,
                removed: Seq::empty(),
                skipped: Seq::empty(),
                errors: Seq::empty(),
            }),
    {
        GcResult {
            scanned_repos: 0,
            scanned_worktrees: 0,
            removed: Vec::new(),
            skipped: Vec::new(),
            errors: Vec::new(),
        }
    }
}

impl ResultModel {
    /// What a run over so many repositories has done at its start.
    pub open spec fn begun(repos: nat) -> ResultModel {
        ResultModel {
            scanned_repos: repos,
            scanned_worktrees: 0,
            removed: Seq::empty(),
            skipped: Seq::empty(),
            errors: Seq::empty(),
        }
    }
}

/// The start of a run over these repositories: they are counted, and nothing is done yet.
pub fn begin_run(repos: &Vec<RepoInfo>) -> (r: GcResult)
    ensures
        r@ == ResultModel::begun(repos.deep_view().len()),
{
    GcResult { scanned_repos: repos.len(), ..GcResult::default() }
}

/// One change of a [`ResultModel`].
pub enum Change {
    Nothing,
    Scanned(nat),
    Removed(Seq<char>),
    Skipped(Seq<char>),
    Failed(Seq<char>),
}

impl ResultModel {
    pub open spec fn changed(self, change: Change) -> ResultModel {
        match change {
            Change::Nothing => self,
            Change::Scanned(n) => ResultModel { scanned_worktrees: self.scanned_worktrees + n, ..self },
            Change::Removed(text) => ResultModel { removed: self.removed.push(text), ..self },
            Change::Skipped(text) => ResultModel { skipped: self.skipped.push(text), ..self },
            Change::Failed(text) => ResultModel { errors: self.errors.push(text), ..self },
        }
    }

    /// How many worktrees and repositories have an outcome.
    pub open spec fn outcomes(self) -> nat {
        self.removed.len() + self.skipped.len() + self.errors.len()
    }
}

/// Where the work on one repository stands.
#[derive(Debug)]
enum Stage {
    /// The worktrees are not known yet.
    Listing,
    /// The current worktree is to be looked at.
    Looking,
    /// The current worktree has a merged pull request and is to be removed.
    Removing(GhPr),
    /// The current worktree is removed; its branch is to be deleted.
    DeletingBranch(GhPr),
    /// All worktrees are done; git is to forget the removed ones.
    Pruning,
    Finished,
}

/// What a stage says.
pub enum StageModel {
    Listing,
    Looking,
    Removing(PrModel),
    DeletingBranch(PrModel),
    Pruning,
    Finished,
}

/// The work on one repository: the next thing to ask of git or GitHub, and what the answers come to.
#[derive(Debug)]
pub struct RepoRun {
    repo: RepoInfo,
    dry_run: bool,
    worktrees: Vec<WorktreeEntry>,
    current: usize,
    stage: Stage,
    had_removal: bool,
}

/// What a [`RepoRun`] says. `worktrees` are the ones besides the main one, and `current` counts
/// those that are done.
#[verifier::ext_equal]
pub struct RunModel {
    pub repo: RepoModel,
    pub dry_run: bool,
    pub worktrees: Seq<WorktreeModel>,
    pub current: int,
    pub stage: StageModel,
    pub had_removal: bool,
}

impl View for RepoRun {
    type V = RunModel;

    closed spec fn view(&self) -> RunModel {
        RunModel {
            repo: self.repo@,
            dry_run: self.dry_run,
            worktrees: self.worktrees.deep_view(),
            current: self.current as int,
            stage: match self.stage {
                Stage::Listing => StageModel::Listing,
                Stage::Looking => StageModel::Looking,
                Stage::Removing(pr) => StageModel::Removing(pr@),
                Stage::DeletingBranch(pr) => StageModel::DeletingBranch(pr@),
                Stage::Pruning => StageModel::Pruning,
                Stage::Finished => StageModel::Finished,
            },
            had_removal: self.had_removal,
        }
    }
}

/// What is to be done next for a repository.
#[derive(Debug)]
pub enum RepoAction {
    /// Run [`gc::worktree_list_command`].
    ListWorktrees,
    /// Nothing: the current worktree has a detached head and only its record is written.
    NoteDetached { path: String },
    /// Run [`gc::merged_pr_command`] for the branch of that worktree.
    CheckBranch { path: String, branch: String },
    /// Run [`gc::worktree_remove_command`] for that worktree.
    RemoveWorktree { path: String },
    /// Run [`gc::branch_delete_command`] for that branch.
    DeleteBranch { branch: String },
    /// Run [`gc::prune_command`].
    Prune,
    /// Nothing more.
    Finish,
}

/// What a [`RepoAction`] says.
pub enum ActionModel {
    ListWorktrees,
    NoteDetached { path: Seq<char> },
    CheckBranch { path: Seq<char>, branch: Seq<char> },
    RemoveWorktree { path: Seq<char> },
    DeleteBranch { branch: Seq<char> },
    Prune,
    Finish,
}

impl View for RepoAction {
    type V = ActionModel;

    open spec fn view(&self) -> ActionModel {
        match self {
            RepoAction::ListWorktrees => ActionModel::ListWorktrees,
            RepoAction::NoteDetached { path } => ActionModel::NoteDetached { path: path@ },
            RepoAction::CheckBranch { path, branch } => ActionModel::CheckBranch { path: path@, branch: branch@ },
            RepoAction::RemoveWorktree { path } => ActionModel::RemoveWorktree { path: path@ },
            RepoAction::DeleteBranch { branch } => ActionModel::DeleteBranch { branch: branch@ },
            RepoAction::Prune => ActionModel::Prune,
            RepoAction::Finish => ActionModel::Finish,
        }
    }
}

/// What came of an action.
#[derive(Debug)]
pub enum RepoEvent {
    Listed(Result<Vec<WorktreeEntry>, Error>),
    Noted,
    Checked(Result<Option<GhPr>, Error>),
    Removed(Result<(), Error>),
    /// The branch was deleted or could not be: either way the worktree is gone.
    BranchDone,
    /// The removed worktrees were forgotten or could not be.
    PruneDone,
}

/// What a [`RepoEvent`] says.
pub enum EventModel {
    Listed(Result<Seq<WorktreeModel>, ErrorModel>),
    Noted,
    Checked(Result<Option<PrModel>, ErrorModel>),
    Removed(Result<(), ErrorModel>),
    BranchDone,
    PruneDone,
}

impl View for RepoEvent {
    type V = EventModel;

    open spec fn view(&self) -> EventModel {
        match self {
            RepoEvent::Listed(r) => EventModel::Listed(gc::listing_model(*r)),
            RepoEvent::Noted => EventModel::Noted,
            RepoEvent::Checked(r) => EventModel::Checked(gc::check_model(*r)),
            RepoEvent::Removed(r) => EventModel::Removed(gc::done_model(*r)),
            RepoEvent::BranchDone => EventModel::BranchDone,
            RepoEvent::PruneDone => EventModel::PruneDone,
        }
    }
}

/// What an answer comes to: how the work goes on, what changes in the result of the run, and what
/// is written to the log.
#[verifier::ext_equal]
pub struct StepModel {
    pub run: RunModel,
    pub change: Change,
    pub record: Option<RecordModel>,
}

/// The test for worktrees besides the main one.
pub open spec fn is_extra() -> spec_fn(WorktreeModel) -> bool {
    |w: WorktreeModel| !w.is_main
}

/// `path (branch: branch, PR #number)`.
pub open spec fn removed_text(path: Seq<char>, branch: Seq<char>, number: u64) -> Seq<char> {
    path + " (branch: "@ + branch + ", PR #"@ + text::decimal(number as nat) + ")"@
}

impl RunModel {
    /// The start of the work on a repository.
    pub open spec fn start(repo: RepoModel, dry_run: bool) -> RunModel {
        RunModel {
            repo,
            dry_run,
            worktrees: Seq::empty(),
            current: 0,
            stage: StageModel::Listing,
            had_removal: false,
        }
    }

    /// Before the list there are no worktrees; after it, none of them is the main one. A current
    /// worktree exists wherever one is needed, and one that goes has a branch and is no rehearsal.
    pub open spec fn well_formed(self) -> bool {
        &&& 0 <= self.current <= self.worktrees.len()
        &&& forall|i: int| 0 <= i < self.worktrees.len() ==> !(#[trigger] self.worktrees[i]).is_main
        &&& self.stage is Listing ==> self.worktrees.len() == 0 && !self.had_removal
        &&& self.stage is Looking ==> self.current < self.worktrees.len()
        &&& self.stage is Removing || self.stage is DeletingBranch ==> {
            &&& self.current < self.worktrees.len()
            &&& self.worktrees[self.current].branch is Some
            &&& !self.dry_run
        }
        &&& self.stage is Pruning ==> self.current == self.worktrees.len() && self.had_removal
        &&& self.stage is Finished ==> self.current == self.worktrees.len()
        &&& self.had_removal ==> !self.dry_run
    }

    /// The next thing to do.
    pub open spec fn action(self) -> ActionModel {
        let wt = self.worktrees[self.current];
        match self.stage {
            StageModel::Listing => ActionModel::ListWorktrees,
            StageModel::Looking => match wt.branch {
                Some(branch) => ActionModel::CheckBranch { path: wt.path, branch },
                None => ActionModel::NoteDetached { path: wt.path },
            },
            StageModel::Removing(_) => ActionModel::RemoveWorktree { path: wt.path },
            StageModel::DeletingBranch(_) => ActionModel::DeleteBranch { branch: wt.branch->0 },
            StageModel::Pruning => ActionModel::Prune,
            StageModel::Finished => ActionModel::Finish,
        }
    }

    pub open spec fn full_repo(self) -> Seq<char> {
        gc::full_name(self.repo.owner, self.repo.repo)
    }

    /// The current worktree is done.
    pub open spec fn settled(self, had_removal: bool) -> RunModel {
        RunModel {
            current: self.current + 1,
            stage: if self.current + 1 < self.worktrees.len() {
                StageModel::Looking
            } else if had_removal {
                StageModel::Pruning
            } else {
                StageModel::Finished
            },
            had_removal,
            ..self
        }
    }

    /// Nothing happens.
    pub open spec fn unchanged(self) -> StepModel {
        StepModel { run: self, change: Change::Nothing, record: None }
    }

    /// The list of worktrees came: the main one is left alone.
    pub open spec fn after_list(self, listing: Result<Seq<WorktreeModel>, ErrorModel>, now: Seq<char>) -> StepModel {
        match listing {
            Ok(all) => {
                let worktrees = all.filter(is_extra());
                StepModel {
                    run: RunModel {
                        worktrees,
                        stage: if worktrees.len() == 0 { StageModel::Finished } else { StageModel::Looking },
                        ..self
                    },
                    change: Change::Scanned(worktrees.len()),
                    record: None,
                }
            },
            Err(e) => StepModel {
                run: RunModel { stage: StageModel::Finished, ..self },
                change: Change::Failed(self.repo.path + ": "@ + e.text),
                record: Some(
                    RecordModel::Error {
                        timestamp: now,
                        repo: self.full_repo(),
                        branch: None,
                        worktree: None,
                        error: "Failed to list worktrees: "@ + e.text,
                    },
                ),
            },
        }
    }

    /// The current worktree has a detached head: it is skipped.
    pub open spec fn after_note(self, now: Seq<char>) -> StepModel {
        let path = self.worktrees[self.current].path;
        StepModel {
            run: self.settled(self.had_removal),
            change: Change::Skipped(path + " (detached HEAD)"@),
            record: Some(
                RecordModel::Skipped {
                    timestamp: now,
                    repo: self.full_repo(),
                    branch: "(detached)"@,
                    worktree: path,
                    reason: "detached HEAD"@,
                },
            ),
        }
    }

    /// The current worktree is gone, or would be.
    pub open spec fn after_removal(self, branch: Seq<char>, pr: PrModel, had_removal: bool, now: Seq<char>) -> StepModel {
        let path = self.worktrees[self.current].path;
        StepModel {
            run: self.settled(had_removal),
            change: Change::Removed(removed_text(path, branch, pr.number)),
            record: Some(
                RecordModel::Removed {
                    timestamp: now,
                    repo: self.full_repo(),
                    branch,
                    worktree: path,
                    pr_number: pr.number,
                    pr_url: pr.url,
                },
            ),
        }
    }

    /// Something failed for the current worktree.
    pub open spec fn after_failure(self, branch: Seq<char>, entry: Seq<char>, error: Seq<char>, now: Seq<char>) -> StepModel {
        StepModel {
            run: self.settled(self.had_removal),
            change: Change::Failed(entry),
            record: Some(
                RecordModel::Error {
                    timestamp: now,
                    repo: self.full_repo(),
                    branch: Some(branch),
                    worktree: Some(self.worktrees[self.current].path),
                    error,
                },
            ),
        }
    }

    /// GitHub told whether the branch of the current worktree has a merged pull request.
    pub open spec fn after_check(self, branch: Seq<char>, answer: Result<Option<PrModel>, ErrorModel>, now: Seq<char>) -> StepModel {
        let path = self.worktrees[self.current].path;
        match answer {
            Ok(Some(pr)) => if self.dry_run {
                self.after_removal(branch, pr, self.had_removal, now)
            } else {
                StepModel {
                    run: RunModel { stage: StageModel::Removing(pr), ..self },
                    change: Change::Nothing,
                    record: None,
                }
            },
            Ok(None) => StepModel {
                run: self.settled(self.had_removal),
                change: Change::Skipped(path + " (branch: "@ + branch + ", not merged)"@),
                record: Some(
                    RecordModel::Skipped {
                        timestamp: now,
                        repo: self.full_repo(),
                        branch,
                        worktree: path,
                        reason: "not_merged"@,
                    },
                ),
            },
            Err(e) => self.after_failure(
                branch,
                path + " (branch: "@ + branch + "): "@ + e.text,
                "Failed to check PR status: "@ + e.text,
                now,
            ),
        }
    }

    /// What an answer comes to. One that does not belong to the stage changes nothing.
    pub open spec fn step(self, event: EventModel, now: Seq<char>) -> StepModel {
        let wt = self.worktrees[self.current];
        match (self.stage, event) {
            (StageModel::Listing, EventModel::Listed(listing)) => self.after_list(listing, now),
            (StageModel::Looking, EventModel::Noted) => if wt.branch is None {
                self.after_note(now)
            } else {
                self.unchanged()
            },
            (StageModel::Looking, EventModel::Checked(answer)) => match wt.branch {
                Some(branch) => self.after_check(branch, answer, now),
                None => self.unchanged(),
            },
            (StageModel::Removing(pr), EventModel::Removed(Ok(()))) => StepModel {
                run: RunModel { stage: StageModel::DeletingBranch(pr), ..self },
                change: Change::Nothing,
                record: None,
            },
            (StageModel::Removing(pr), EventModel::Removed(Err(e))) => self.after_failure(
                wt.branch->0,
                wt.path + ": "@ + e.text,
                e.text,
                now,
            ),
            (StageModel::DeletingBranch(pr), EventModel::BranchDone) => self.after_removal(wt.branch->0, pr, true, now),
            (StageModel::Pruning, EventModel::PruneDone) => StepModel {
                run: RunModel { stage: StageModel::Finished, ..self },
                change: Change::Nothing,
                record: None,
            },
            _ => self.unchanged(),
        }
    }
}

/// The worktrees besides the main one.
fn extra_worktrees(all: Vec<WorktreeEntry>) -> (r: Vec<WorktreeEntry>)
    ensures
        r.deep_view() == all.deep_view().filter(is_extra()),
        forall|i: int| 0 <= i < r.deep_view().len() ==> !(#[trigger] r.deep_view()[i]).is_main,
        r.len() <= all.len(),
{
    let ghost models = all.deep_view();
    let ghost items = all@;
    let mut out: Vec<WorktreeEntry> = Vec::new();
    proof {
        reveal(Seq::filter);
        assert(models.subrange(0, 0).filter(is_extra()) =~= Seq::empty());
        assert(out.deep_view() =~= Seq::empty());
    }
    for w in it: all
        invariant
            it.seq() == items,
            models.len() == items.len(),
            forall|i: int| 0 <= i < items.len() ==> models[i] == (#[trigger] items[i])@,
            out.deep_view() == models.subrange(0, it.index()).filter(is_extra()),
            forall|i: int| 0 <= i < out.deep_view().len() ==> !(#[trigger] out.deep_view()[i]).is_main,
            out.len() <= it.index(),
    {
        proof {
            names::lemma_filter_step(models, is_extra(), it.index());
            assert(models[it.index()] == w@);
        }
        if !w.is_main {
            names::put(&mut out, w);
        }
    }
    assert(models.subrange(0, models.len() as int) =~= models);
    out
}

impl RepoRun {
    /// Starts the work on a repository. A dry run changes nothing on disk.
    pub fn new(repo: RepoInfo, dry_run: bool) -> (r: RepoRun)
        ensures
            r@ == RunModel::start(repo@, dry_run),
            r@.well_formed(),
    {
        RepoRun {
            repo,
            dry_run,
            worktrees: Vec::new(),
            current: 0,
            stage: Stage::Listing,
            had_removal: false,
        }
    }

    /// The next thing to do.
    pub fn next_action(&self) -> (r: RepoAction)
        requires
            self@.well_formed(),
        ensures
            r@ == self@.action(),
    {
        match &self.stage {
            Stage::Listing => RepoAction::ListWorktrees,
            Stage::Looking => {
                let path = self.worktrees[self.current].path.clone();
                match &self.worktrees[self.current].branch {
                    Some(branch) => RepoAction::CheckBranch { path, branch: branch.clone() },
                    None => RepoAction::NoteDetached { path },
                }
            },
            Stage::Removing(_) => RepoAction::RemoveWorktree { path: self.worktrees[self.current].path.clone() },
            Stage::DeletingBranch(_) => match &self.worktrees[self.current].branch {
                Some(branch) => RepoAction::DeleteBranch { branch: branch.clone() },
                None => RepoAction::Finish,
            },
            Stage::Pruning => RepoAction::Prune,
            Stage::Finished => RepoAction::Finish,
        }
    }

    /// The work on after the current worktree.
    fn settle(self, had_removal: bool) -> (r: RepoRun)
        requires
            self@.well_formed(),
            self@.current < self@.worktrees.len(),
            self@.had_removal ==> had_removal,
            had_removal ==> !self@.dry_run,
        ensures
            r@ == self@.settled(had_removal),
            r@.well_formed(),
    {
        let count: usize = self.worktrees.len();
        let current: usize = self.current + 1;
        let stage = if current < count {
            Stage::Looking
        } else if had_removal {
            Stage::Pruning
        } else {
            Stage::Finished
        };
        RepoRun { current, stage, had_removal, ..self }
    }

    fn full_repo(&self) -> (r: String)
        ensures
            r@ == self@.full_repo(),
    {
        gc::full_repo_name(self.repo.owner.as_str(), self.repo.repo.as_str())
    }

    fn listed(self, listing: Result<Vec<WorktreeEntry>, Error>, now: String, result: &mut GcResult) -> (r: (
        RepoRun,
        Option<LogRecord>,
    ))
        requires
            self@.well_formed(),
            self@.stage is Listing,
            listing matches Ok(all) ==> old(result).scanned_worktrees + all.len() <= usize::MAX,
        ensures
            r.0@.well_formed(),
            r.0@ == self@.after_list(gc::listing_model(listing), now@).run,
            r.1.deep_view() == self@.after_list(gc::listing_model(listing), now@).record,
            final(result)@ == old(result)@.changed(self@.after_list(gc::listing_model(listing), now@).change),
    {
        match listing {
            Ok(all) => {
                let worktrees = extra_worktrees(all);
                result.scanned_worktrees = result.scanned_worktrees + worktrees.len();
                let stage = if worktrees.len() == 0 { Stage::Finished } else { Stage::Looking };
                (RepoRun { worktrees, stage, ..self }, None)
            },
            Err(e) => {
                let mut entry = self.repo.path.clone();
                entry.append(": ");
                entry.append(e.message());
                names::put(&mut result.errors, entry);
                let mut error = "Failed to list worktrees: ".to_owned();
                error.append(e.message());
                let record = LogRecord::Error {
                    timestamp: now,
                    repo: self.full_repo(),
                    branch: None,
                    worktree: None,
                    error,
                };
                (RepoRun { stage: Stage::Finished, ..self }, Some(record))
            },
        }
    }

    fn noted(self, now: String, result: &mut GcResult) -> (r: (RepoRun, Option<LogRecord>))
        requires
            self@.well_formed(),
            self@.stage is Looking,
        ensures
            r.0@.well_formed(),
            r.0@ == self@.after_note(now@).run,
            r.1.deep_view() == self@.after_note(now@).record,
            final(result)@ == old(result)@.changed(self@.after_note(now@).change),
    {
        let path = self.worktrees[self.current].path.clone();
        let mut entry = path.clone();
        entry.append(" (detached HEAD)");
        names::put(&mut result.skipped, entry);
        let record = LogRecord::Skipped {
            timestamp: now,
            repo: self.full_repo(),
            branch: "(detached)".to_owned(),
            worktree: path,
            reason: "detached HEAD".to_owned(),
        };
        let had_removal = self.had_removal;
        (self.settle(had_removal), Some(record))
    }

    fn gone(self, branch: String, pr: GhPr, had_removal: bool, now: String, result: &mut GcResult) -> (r: (
        RepoRun,
        Option<LogRecord>,
    ))
        requires
            self@.well_formed(),
            self@.current < self@.worktrees.len(),
            self@.had_removal ==> had_removal,
            had_removal ==> !self@.dry_run,
        ensures
            r.0@.well_formed(),
            r.0@ == self@.after_removal(branch@, pr@, had_removal, now@).run,
            r.1.deep_view() == self@.after_removal(branch@, pr@, had_removal, now@).record,
            final(result)@ == old(result)@.changed(self@.after_removal(branch@, pr@, had_removal, now@).change),
    {
        let path = self.worktrees[self.current].path.clone();
        let mut entry = path.clone();
        entry.append(" (branch: ");
        entry.append(branch.as_str());
        entry.append(", PR #");
        entry.append(text::decimal_text(pr.number as u128).as_str());
        entry.append(")");
        names::put(&mut result.removed, entry);
        let record = LogRecord::Removed {
            timestamp: now,
            repo: self.full_repo(),
            branch,
            worktree: path,
            pr_number: pr.number,
            pr_url: pr.url,
        };
        (self.settle(had_removal), Some(record))
    }

    fn failed(self, branch: String, entry: String, error: String, now: String, result: &mut GcResult) -> (r: (
        RepoRun,
        Option<LogRecord>,
    ))
        requires
            self@.well_formed(),
            self@.current < self@.worktrees.len(),
        ensures
            r.0@.well_formed(),
            r.0@ == self@.after_failure(branch@, entry@, error@, now@).run,
            r.1.deep_view() == self@.after_failure(branch@, entry@, error@, now@).record,
            final(result)@ == old(result)@.changed(self@.after_failure(branch@, entry@, error@, now@).change),
    {
        let path = self.worktrees[self.current].path.clone();
        names::put(&mut result.errors, entry);
        let record = LogRecord::Error {
            timestamp: now,
            repo: self.full_repo(),
            branch: Some(branch),
            worktree: Some(path),
            error,
        };
        let had_removal = self.had_removal;
        (self.settle(had_removal), Some(record))
    }

    fn checked(self, branch: String, answer: Result<Option<GhPr>, Error>, now: String, result: &mut GcResult) -> (r: (
        RepoRun,
        Option<LogRecord>,
    ))
        requires
            self@.well_formed(),
            self@.stage is Looking,
            self@.worktrees[self@.current].branch == Some(branch@),
        ensures
            r.0@.well_formed(),
            r.0@ == self@.after_check(branch@, gc::check_model(answer), now@).run,
            r.1.deep_view() == self@.after_check(branch@, gc::check_model(answer), now@).record,
            final(result)@ == old(result)@.changed(self@.after_check(branch@, gc::check_model(answer), now@).change),
    {
        let path = self.worktrees[self.current].path.clone();
        match answer {
            Ok(Some(pr)) => {
                if self.dry_run {
                    let had_removal = self.had_removal;
                    self.gone(branch, pr, had_removal, now, result)
                } else {
                    (RepoRun { stage: Stage::Removing(pr), ..self }, None)
                }
            },
            Ok(None) => {
                let mut entry = path.clone();
                entry.append(" (branch: ");
                entry.append(branch.as_str());
                entry.append(", not merged)");
                names::put(&mut result.skipped, entry);
                let record = LogRecord::Skipped {
                    timestamp: now,
                    repo: self.full_repo(),
                    branch,
                    worktree: path,
                    reason: "not_merged".to_owned(),
                };
                let had_removal = self.had_removal;
                (self.settle(had_removal), Some(record))
            },
            Err(e) => {
                let mut entry = path;
                entry.append(" (branch: ");
                entry.append(branch.as_str());
                entry.append("): ");
                entry.append(e.message());
                let mut error = "Failed to check PR status: ".to_owned();
                error.append(e.message());
                self.failed(branch, entry, error, now, result)
            },
        }
    }

    /// Takes in the answer to the last action: goes on, adds to the result of the run, and hands
    /// back the record for the log. `now` is the time of the record.
    pub fn step(self, event: RepoEvent, now: String, result: &mut GcResult) -> (r: (RepoRun, Option<LogRecord>))
        requires
            self@.well_formed(),
            event matches RepoEvent::Listed(Ok(all)) ==> old(result).scanned_worktrees + all.len() <= usize::MAX,
        ensures
            r.0@.well_formed(),
            r.0@ == self@.step(event@, now@).run,
            r.1.deep_view() == self@.step(event@, now@).record,
            final(result)@ == old(result)@.changed(self@.step(event@, now@).change),
    {
        match event {
            RepoEvent::Listed(listing) => {
                if let Stage::Listing = &self.stage {
                    return self.listed(listing, now, result);
                }
                (self, None)
            },
            RepoEvent::Noted => {
                if let Stage::Looking = &self.stage {
                    if self.worktrees[self.current].branch.is_none() {
                        return self.noted(now, result);
                    }
                }
                (self, None)
            },
            RepoEvent::Checked(answer) => {
                if let Stage::Looking = &self.stage {
                    if let Some(branch) = &self.worktrees[self.current].branch {
                        let branch = branch.clone();
                        return self.checked(branch, answer, now, result);
                    }
                }
                (self, None)
            },
            RepoEvent::Removed(done) => {
                let branch = match &self.stage {
                    Stage::Removing(_) => match &self.worktrees[self.current].branch {
                        Some(branch) => branch.clone(),
                        None => return (self, None),
                    },
                    _ => return (self, None),
                };
                match done {
                    Ok(()) => match self.stage {
                        Stage::Removing(pr) => (RepoRun { stage: Stage::DeletingBranch(pr), ..self }, None),
                        stage => (RepoRun { stage, ..self }, None),
                    },
                    Err(e) => {
                        let mut entry = self.worktrees[self.current].path.clone();
                        entry.append(": ");
                        entry.append(e.message());
                        self.failed(branch, entry, e.message().to_owned(), now, result)
                    },
                }
            },
            RepoEvent::BranchDone => {
                let branch = match &self.stage {
                    Stage::DeletingBranch(_) => match &self.worktrees[self.current].branch {
                        Some(branch) => branch.clone(),
                        None => return (self, None),
                    },
                    _ => return (self, None),
                };
                let RepoRun { repo, dry_run, worktrees, current, stage, had_removal } = self;
                match stage {
                    Stage::DeletingBranch(pr) => {
                        let run = RepoRun { repo, dry_run, worktrees, current, stage: Stage::Looking, had_removal };
                        run.gone(branch, pr, true, now, result)
                    },
                    stage => (RepoRun { repo, dry_run, worktrees, current, stage, had_removal }, None),
                }
            },
            RepoEvent::PruneDone => {
                if let Stage::Pruning = &self.stage {
                    return (RepoRun { stage: Stage::Finished, ..self }, None);
                }
                (self, None)
            },
        }
    }
}

/// The answers to the actions of a run, each with its time.
pub type Answers = Seq<(EventModel, Seq<char>)>;

impl RunModel {
    /// The work after these answers.
    pub open spec fn after(self, answers: Answers) -> RunModel
        decreases answers.len(),
    {
        if answers.len() == 0 {
            self
        } else {
            self.after(answers.drop_last()).step(answers.last().0, answers.last().1).run
        }
    }

    /// The result of the run after these answers.
    pub open spec fn result_after(self, result: ResultModel, answers: Answers) -> ResultModel
        decreases answers.len(),
    {
        if answers.len() == 0 {
            result
        } else {
            let step = self.after(answers.drop_last()).step(answers.last().0, answers.last().1);
            self.result_after(result, answers.drop_last()).changed(step.change)
        }
    }

    /// The records that were written on these answers.
    pub open spec fn records_after(self, answers: Answers) -> Seq<RecordModel>
        decreases answers.len(),
    {
        if answers.len() == 0 {
            Seq::empty()
        } else {
            let written = self.records_after(answers.drop_last());
            match self.after(answers.drop_last()).step(answers.last().0, answers.last().1).record {
                Some(record) => written.push(record),
                None => written,
            }
        }
    }

    /// The work where the answer number `i` came.
    pub open spec fn before(self, answers: Answers, i: int) -> RunModel {
        self.after(answers.subrange(0, i))
    }

    /// The answer belongs to what was to be done.
    pub open spec fn answered_by(self, event: EventModel) -> bool {
        match (self.action(), event) {
            (ActionModel::ListWorktrees, EventModel::Listed(_)) => true,
            (ActionModel::NoteDetached { .. }, EventModel::Noted) => true,
            (ActionModel::CheckBranch { .. }, EventModel::Checked(_)) => true,
            (ActionModel::RemoveWorktree { .. }, EventModel::Removed(_)) => true,
            (ActionModel::DeleteBranch { .. }, EventModel::BranchDone) => true,
            (ActionModel::Prune, EventModel::PruneDone) => true,
            _ => false,
        }
    }

    /// How many answers are still to come at most, once the worktrees are known.
    pub open spec fn remaining(self) -> int {
        let left = self.worktrees.len() - self.current;
        match self.stage {
            StageModel::Removing(_) => 3 * left,
            StageModel::DeletingBranch(_) => 3 * left - 1,
            StageModel::Finished => 0,
            _ => 3 * left + 1,
        }
    }
}

proof fn lemma_extra_are_not_main(all: Seq<WorktreeModel>)
    ensures
        forall|i: int| 0 <= i < all.filter(is_extra()).len() ==> !(#[trigger] all.filter(is_extra())[i]).is_main,
    decreases all.len(),
{
    reveal(Seq::filter);
    if all.len() > 0 {
        lemma_extra_are_not_main(all.drop_last());
    }
}

/// An answer of any kind, at any time, leaves the work well-formed, and neither turns a dry run into
/// a real one nor moves to another repository.
pub proof fn lemma_step_keeps_well_formed(run: RunModel, event: EventModel, now: Seq<char>)
    requires
        run.well_formed(),
    ensures
        run.step(event, now).run.well_formed(),
        run.step(event, now).run.dry_run == run.dry_run,
        run.step(event, now).run.repo == run.repo,
{
    if let EventModel::Listed(Ok(all)) = event {
        lemma_extra_are_not_main(all);
    }
}

/// Whatever the answers are, the work stays well-formed.
pub proof fn lemma_work_stays_well_formed(run: RunModel, answers: Answers)
    requires
        run.well_formed(),
    ensures
        run.after(answers).well_formed(),
        run.after(answers).dry_run == run.dry_run,
        run.after(answers).repo == run.repo,
    decreases answers.len(),
{
    if answers.len() > 0 {
        let before = answers.drop_last();
        lemma_work_stays_well_formed(run, before);
        lemma_step_keeps_well_formed(run.after(before), answers.last().0, answers.last().1);
    }
}

/// Whatever git and GitHub answer, a dry run never asks for a removal, for the deletion of a branch
/// or for pruning.
pub proof fn lemma_dry_run_changes_nothing(repo: RepoModel, answers: Answers)
    ensures
        ({
            let action = RunModel::start(repo, true).after(answers).action();
            &&& action !is RemoveWorktree
            &&& action !is DeleteBranch
            &&& action !is Prune
        }),
{
    lemma_work_stays_well_formed(RunModel::start(repo, true), answers);
}

/// On the answer number `i` GitHub said that the branch of the worktree `w` has a merged pull
/// request, and `w` was the worktree that was asked about.
pub open spec fn confirmed(start: RunModel, answers: Answers, i: int, w: WorktreeModel) -> bool {
    let then_run = start.before(answers, i);
    &&& 0 <= i < answers.len()
    &&& then_run.current < then_run.worktrees.len()
    &&& then_run.worktrees[then_run.current] == w
    &&& w.branch is Some
    &&& then_run.action() == (ActionModel::CheckBranch { path: w.path, branch: w.branch->0 })
    &&& answers[i].0 matches EventModel::Checked(Ok(Some(_)))
}

/// On the answer number `i` git said that it had removed the worktree `w`.
pub open spec fn removed(start: RunModel, answers: Answers, i: int, w: WorktreeModel) -> bool {
    let then_run = start.before(answers, i);
    &&& 0 <= i < answers.len()
    &&& then_run.current < then_run.worktrees.len()
    &&& then_run.worktrees[then_run.current] == w
    &&& then_run.action() == (ActionModel::RemoveWorktree { path: w.path })
    &&& answers[i].0 matches EventModel::Removed(Ok(_))
}

proof fn lemma_confirmed(start: RunModel, answers: Answers)
    requires
        start.well_formed(),
        start.stage is Listing,
        start.after(answers).stage is Removing || start.after(answers).stage is DeletingBranch,
    ensures
        ({
            let run = start.after(answers);
            exists|i: int| confirmed(start, answers, i, run.worktrees[run.current])
        }),
        ({
            let run = start.after(answers);
            run.stage is DeletingBranch ==> exists|i: int| removed(start, answers, i, run.worktrees[run.current])
        }),
    decreases answers.len(),
{
    let run = start.after(answers);
    let w = run.worktrees[run.current];
    let before = answers.drop_last();
    let last = answers.len() - 1;
    lemma_work_stays_well_formed(start, before);
    assert(answers.subrange(0, last) =~= before);
    assert(start.before(answers, last) == start.after(before));
    if start.after(before).stage is Looking {
        assert(confirmed(start, answers, last, w));
    } else {
        lemma_confirmed(start, before);
        let i = choose|i: int| confirmed(start, before, i, w);
        assert(answers.subrange(0, i) =~= before.subrange(0, i));
        assert(confirmed(start, answers, i, w));
        if start.after(before).stage is Removing {
            assert(run.stage is DeletingBranch ==> removed(start, answers, last, w));
        } else {
            let j = choose|j: int| removed(start, before, j, w);
            assert(answers.subrange(0, j) =~= before.subrange(0, j));
            assert(removed(start, answers, j, w));
        }
    }
}

/// A worktree is removed only where it is not the main one, where it has a branch, and where GitHub
/// answered that this branch has a merged pull request; and never in a dry run.
pub proof fn lemma_only_merged_worktrees_go(repo: RepoModel, dry_run: bool, answers: Answers, path: Seq<char>)
    requires
        RunModel::start(repo, dry_run).after(answers).action() == (ActionModel::RemoveWorktree { path }),
    ensures
        !dry_run,
        exists|i: int, w: WorktreeModel|
            #[trigger] confirmed(RunModel::start(repo, dry_run), answers, i, w) && w.path == path && !w.is_main,
{
    let start = RunModel::start(repo, dry_run);
    lemma_work_stays_well_formed(start, answers);
    lemma_confirmed(start, answers);
    let run = start.after(answers);
    let w = run.worktrees[run.current];
    let i = choose|i: int| confirmed(start, answers, i, w);
    assert(confirmed(start, answers, i, w) && w.path == path && !w.is_main);
}

/// A branch is deleted only where it is the branch of a worktree that was removed, and only where
/// GitHub answered that it has a merged pull request.
pub proof fn lemma_only_branches_of_removed_worktrees_go(
    repo: RepoModel,
    dry_run: bool,
    answers: Answers,
    branch: Seq<char>,
)
    requires
        RunModel::start(repo, dry_run).after(answers).action() == (ActionModel::DeleteBranch { branch }),
    ensures
        exists|i: int, j: int, w: WorktreeModel|
            #[trigger] confirmed(RunModel::start(repo, dry_run), answers, i, w) && #[trigger] removed(
                RunModel::start(repo, dry_run),
                answers,
                j,
                w,
            ) && w.branch == Some(branch) && !w.is_main,
{
    let start = RunModel::start(repo, dry_run);
    lemma_work_stays_well_formed(start, answers);
    lemma_confirmed(start, answers);
    let run = start.after(answers);
    let w = run.worktrees[run.current];
    let i = choose|i: int| confirmed(start, answers, i, w);
    let j = choose|j: int| removed(start, answers, j, w);
    assert(confirmed(start, answers, i, w) && removed(start, answers, j, w) && w.branch == Some(branch) && !w.is_main);
}

/// What is looked at after the list are those of its worktrees that are not the main one.
proof fn lemma_worktrees_are_listed(repo: RepoModel, dry_run: bool, answers: Answers, all: Seq<WorktreeModel>)
    requires
        answers.len() > 0,
        answers[0].0 == EventModel::Listed(Ok(all)),
    ensures
        RunModel::start(repo, dry_run).after(answers).worktrees == all.filter(is_extra()),
        RunModel::start(repo, dry_run).after(answers).stage !is Listing,
    decreases answers.len(),
{
    let before = answers.drop_last();
    let start = RunModel::start(repo, dry_run);
    if before.len() == 0 {
        assert(start.after(before) == start);
    } else {
        assert(before[0] == answers[0]);
        lemma_worktrees_are_listed(repo, dry_run, before, all);
    }
}

/// The worktree that git lists first is the main one, and it stays, whatever its path and its branch
/// are and whatever is answered: a worktree that is removed is one of those listed behind it.
pub proof fn lemma_first_worktree_stays(
    repo: RepoModel,
    dry_run: bool,
    answers: Answers,
    all: Seq<WorktreeModel>,
    path: Seq<char>,
)
    requires
        answers.len() > 0,
        answers[0].0 == EventModel::Listed(Ok(gc::main_first(all))),
        RunModel::start(repo, dry_run).after(answers).action() == (ActionModel::RemoveWorktree { path }),
    ensures
        exists|k: int| 1 <= k < all.len() && (#[trigger] all[k]).path == path && !all[k].is_main,
{
    let start = RunModel::start(repo, dry_run);
    let run = start.after(answers);
    let listed = gc::main_first(all);
    lemma_work_stays_well_formed(start, answers);
    lemma_worktrees_are_listed(repo, dry_run, answers, listed);
    let w = run.worktrees[run.current];
    assert(listed.filter(is_extra()).contains(w));
    names::lemma_filter_from(listed, is_extra(), w);
    let k = choose|k: int| 0 <= k < listed.len() && listed[k] == w;
    assert(!w.is_main);
    assert(k > 0 && listed[k] == all[k]);
}

proof fn lemma_counts(start: RunModel, result: ResultModel, answers: Answers)
    requires
        start.well_formed(),
        start.stage is Listing,
        start.current == 0,
    ensures
        ({
            let run = start.after(answers);
            let end = start.result_after(result, answers);
            let failed = run.stage is Finished && run.worktrees.len() == 0 && end.errors.len() > result.errors.len();
            &&& end.scanned_repos == result.scanned_repos
            &&& end.scanned_worktrees == result.scanned_worktrees + run.worktrees.len()
            &&& end.outcomes() == result.outcomes() + run.current + if failed { 1int } else { 0 }
            &&& start.records_after(answers).len() == end.outcomes() - result.outcomes()
            &&& end.removed.len() >= result.removed.len()
            &&& end.skipped.len() >= result.skipped.len()
            &&& end.errors.len() >= result.errors.len()
            &&& run.stage is Listing ==> run.current == 0 && end == result
            &&& !start.dry_run ==> (run.had_removal <==> end.removed.len() > result.removed.len())
        }),
    decreases answers.len(),
{
    if answers.len() > 0 {
        let before = answers.drop_last();
        lemma_work_stays_well_formed(start, before);
        lemma_work_stays_well_formed(start, answers);
        lemma_counts(start, result, before);
    }
}

/// When the work on a repository is done, each worktree that was counted has been removed, skipped
/// or reported once, or the worktrees could not be listed, which is the one error reported. Each
/// outcome has its record in the log.
pub proof fn lemma_each_worktree_has_one_outcome(repo: RepoModel, dry_run: bool, result: ResultModel, answers: Answers)
    requires
        RunModel::start(repo, dry_run).after(answers).action() is Finish,
    ensures
        ({
            let start = RunModel::start(repo, dry_run);
            let end = start.result_after(result, answers);
            let scanned = end.scanned_worktrees - result.scanned_worktrees;
            let outcomes = end.outcomes() - result.outcomes();
            let errors = end.errors.len() - result.errors.len();
            &&& outcomes == scanned || scanned == 0 && outcomes == 1 && errors == 1
            &&& start.records_after(answers).len() == outcomes
        }),
{
    let start = RunModel::start(repo, dry_run);
    lemma_work_stays_well_formed(start, answers);
    lemma_counts(start, result, answers);
}

/// What a worktree can come to.
pub enum Kind {
    Removed,
    Skipped,
    Failed,
}

impl ResultModel {
    /// What is told of the worktrees that came to this.
    pub open spec fn told(self, kind: Kind) -> Seq<Seq<char>> {
        match kind {
            Kind::Removed => self.removed,
            Kind::Skipped => self.skipped,
            Kind::Failed => self.errors,
        }
    }
}

/// What a record says that a worktree came to.
pub open spec fn kind_of(record: RecordModel) -> Kind {
    match record {
        RecordModel::Removed { .. } => Kind::Removed,
        RecordModel::Skipped { .. } => Kind::Skipped,
        _ => Kind::Failed,
    }
}

/// How many of the records say so.
pub open spec fn count_of(records: Seq<RecordModel>, kind: Kind) -> nat
    decreases records.len(),
{
    if records.len() == 0 {
        0
    } else {
        count_of(records.drop_last(), kind) + if kind_of(records.last()) == kind { 1nat } else { 0 }
    }
}

/// The record is about the worktree, and `told` is what the result of the run says of it.
pub open spec fn is_about(record: RecordModel, w: WorktreeModel, told: Seq<char>) -> bool {
    match record {
        RecordModel::Removed { branch, worktree, pr_number, .. } => {
            &&& worktree == w.path
            &&& w.branch == Some(branch)
            &&& told == removed_text(w.path, branch, pr_number)
        },
        RecordModel::Skipped { branch, worktree, reason, .. } => {
            &&& worktree == w.path
            &&& match w.branch {
                Some(name) => branch == name && reason == "not_merged"@ && told == w.path + " (branch: "@ + name
                    + ", not merged)"@,
                None => branch == "(detached)"@ && reason == "detached HEAD"@ && told == w.path + " (detached HEAD)"@,
            }
        },
        RecordModel::Error { branch, worktree, error, .. } => {
            &&& worktree == Some(w.path)
            &&& branch is Some
            &&& branch == w.branch
            &&& told == w.path + ": "@ + error || exists|e: Seq<char>|
                error == "Failed to check PR status: "@ + e && told == #[trigger] check_failure(w.path, branch->0, e)
        },
        RecordModel::Summary { .. } => false,
    }
}

/// `path (branch: branch): e`.
pub open spec fn check_failure(path: Seq<char>, branch: Seq<char>, e: Seq<char>) -> Seq<char> {
    path + " (branch: "@ + branch + "): "@ + e
}

/// The record number `i` is about the worktree number `i`, and what the result says of that
/// worktree stands in the list of its kind, behind what was there before and behind the earlier ones
/// of its kind.
pub open spec fn record_matches(
    records: Seq<RecordModel>,
    ws: Seq<WorktreeModel>,
    result: ResultModel,
    end: ResultModel,
    i: int,
) -> bool {
    let kind = kind_of(records[i]);
    let place = result.told(kind).len() + count_of(records.subrange(0, i), kind);
    &&& place < end.told(kind).len()
    &&& is_about(records[i], ws[i], end.told(kind)[place as int])
}

/// What came to the result is one entry for each record of its kind, behind what was there.
pub open spec fn tallied(result: ResultModel, end: ResultModel, records: Seq<RecordModel>, kind: Kind) -> bool {
    &&& result.told(kind).is_prefix_of(end.told(kind))
    &&& end.told(kind).len() == result.told(kind).len() + count_of(records, kind)
}

/// The change that adds an entry of that kind.
spec fn change_to(kind: Kind, told: Seq<char>) -> Change {
    match kind {
        Kind::Removed => Change::Removed(told),
        Kind::Skipped => Change::Skipped(told),
        Kind::Failed => Change::Failed(told),
    }
}

/// A record comes with one entry of its kind, about the current worktree, which is then done; or it
/// tells that the worktrees could not be listed.
spec fn step_is_told(run: RunModel, step: StepModel, record: RecordModel, told: Seq<char>) -> bool {
    &&& step.change == change_to(kind_of(record), told)
    &&& step.run.worktrees == run.worktrees
    &&& if run.stage is Listing {
        record is Error && step.run.stage is Finished && step.run.current == run.current
    } else {
        step.run.current == run.current + 1 && step.run.stage !is Listing && is_about(
            record,
            run.worktrees[run.current],
            told,
        )
    }
}

proof fn lemma_step_is_told(run: RunModel, event: EventModel, now: Seq<char>)
    requires
        run.well_formed(),
    ensures
        run.step(event, now).record matches Some(record) ==> exists|told: Seq<char>|
            step_is_told(run, run.step(event, now), record, told),
        run.step(event, now).record is None ==> {
            let step = run.step(event, now);
            &&& step.change is Nothing || step.change is Scanned
            &&& step.run.current == run.current
            &&& run.stage !is Listing ==> step.run.worktrees == run.worktrees && step.run.stage !is Listing
        },
        run.stage is Finished ==> run.step(event, now).run == run && run.step(event, now).record is None,
{
    let step = run.step(event, now);
    if let Some(record) = step.record {
        let told = match step.change {
            Change::Removed(text) => text,
            Change::Skipped(text) => text,
            Change::Failed(text) => text,
            _ => Seq::empty(),
        };
        let w = run.worktrees[run.current];
        if run.stage !is Listing {
            if let EventModel::Checked(Err(e)) = event {
                assert(told == check_failure(w.path, w.branch->0, e.text));
            }
            assert(is_about(record, w, told));
        }
        assert(step_is_told(run, step, record, told));
    }
}

proof fn lemma_change_is_tallied(
    result: ResultModel,
    so_far: ResultModel,
    written: Seq<RecordModel>,
    record: RecordModel,
    told: Seq<char>,
    kind: Kind,
)
    requires
        tallied(result, so_far, written, kind),
    ensures
        tallied(result, so_far.changed(change_to(kind_of(record), told)), written.push(record), kind),
{
    let records = written.push(record);
    assert(records.drop_last() =~= written);
    assert(records.last() == record);
    let end = so_far.changed(change_to(kind_of(record), told));
    if kind == kind_of(record) {
        assert(end.told(kind) == so_far.told(kind).push(told));
        assert(end.told(kind).subrange(0, result.told(kind).len() as int) =~= so_far.told(kind).subrange(
            0,
            result.told(kind).len() as int,
        ));
    } else {
        assert(end.told(kind) == so_far.told(kind));
    }
}

proof fn lemma_record_still_matches(
    written: Seq<RecordModel>,
    ws: Seq<WorktreeModel>,
    result: ResultModel,
    so_far: ResultModel,
    record: RecordModel,
    told: Seq<char>,
    i: int,
)
    requires
        0 <= i < written.len(),
        record_matches(written, ws, result, so_far, i),
    ensures
        record_matches(written.push(record), ws, result, so_far.changed(change_to(kind_of(record), told)), i),
{
    let records = written.push(record);
    let k = kind_of(written[i]);
    assert(records.subrange(0, i) =~= written.subrange(0, i));
    assert(records[i] == written[i]);
    let end = so_far.changed(change_to(kind_of(record), told));
    if k == kind_of(record) {
        assert(end.told(k) == so_far.told(k).push(told));
    } else {
        assert(end.told(k) == so_far.told(k));
    }
}

proof fn lemma_last_record_matches(
    written: Seq<RecordModel>,
    ws: Seq<WorktreeModel>,
    result: ResultModel,
    so_far: ResultModel,
    record: RecordModel,
    told: Seq<char>,
)
    requires
        tallied(result, so_far, written, kind_of(record)),
        is_about(record, ws[written.len() as int], told),
    ensures
        record_matches(
            written.push(record),
            ws,
            result,
            so_far.changed(change_to(kind_of(record), told)),
            written.len() as int,
        ),
{
    let records = written.push(record);
    let kind = kind_of(record);
    let end = so_far.changed(change_to(kind, told));
    assert(records.subrange(0, written.len() as int) =~= written);
    assert(end.told(kind) == so_far.told(kind).push(told));
}

/// How far the work and its records have come.
spec fn in_step(run: RunModel, records: Seq<RecordModel>, result: ResultModel, end: ResultModel) -> bool {
    &&& forall|kind: Kind| #[trigger] tallied(result, end, records, kind)
    &&& run.stage is Listing ==> run.current == 0 && records.len() == 0
    &&& if records.len() == run.current {
        run.current <= run.worktrees.len() && forall|i: int|
            0 <= i < records.len() ==> #[trigger] record_matches(records, run.worktrees, result, end, i)
    } else {
        run.worktrees.len() == 0 && records.len() == 1 && run.stage is Finished && records[0] is Error
    }
}

proof fn lemma_step_keeps_in_step(
    run: RunModel,
    event: EventModel,
    now: Seq<char>,
    written: Seq<RecordModel>,
    result: ResultModel,
    so_far: ResultModel,
)
    requires
        run.well_formed(),
        in_step(run, written, result, so_far),
    ensures
        ({
            let step = run.step(event, now);
            let records = match step.record {
                Some(record) => written.push(record),
                None => written,
            };
            in_step(step.run, records, result, so_far.changed(step.change))
        }),
{
    let step = run.step(event, now);
    let end = so_far.changed(step.change);
    lemma_step_is_told(run, event, now);
    lemma_step_keeps_well_formed(run, event, now);
    if let Some(record) = step.record {
        let told = choose|told: Seq<char>| step_is_told(run, step, record, told);
        let records = written.push(record);
        assert forall|kind: Kind| #[trigger] tallied(result, end, records, kind) by {
            assert(tallied(result, so_far, written, kind));
            lemma_change_is_tallied(result, so_far, written, record, told, kind);
        }
        if run.stage !is Listing {
            assert(tallied(result, so_far, written, kind_of(record)));
            lemma_last_record_matches(written, run.worktrees, result, so_far, record, told);
            assert forall|i: int| 0 <= i < records.len() implies #[trigger] record_matches(
                records,
                step.run.worktrees,
                result,
                end,
                i,
            ) by {
                if i < written.len() {
                    assert(record_matches(written, run.worktrees, result, so_far, i));
                    lemma_record_still_matches(written, run.worktrees, result, so_far, record, told, i);
                }
            }
        }
    } else {
        assert(end.removed == so_far.removed && end.skipped == so_far.skipped && end.errors == so_far.errors);
        assert forall|kind: Kind| #[trigger] tallied(result, end, written, kind) by {
            assert(tallied(result, so_far, written, kind));
            assert(end.told(kind) == so_far.told(kind));
        }
        if written.len() == run.current {
            assert forall|i: int| 0 <= i < written.len() implies #[trigger] record_matches(
                written,
                step.run.worktrees,
                result,
                end,
                i,
            ) by {
                assert(record_matches(written, run.worktrees, result, so_far, i));
                assert(end.told(kind_of(written[i])) == so_far.told(kind_of(written[i])));
            }
        }
    }
}

proof fn lemma_work_stays_in_step(start: RunModel, result: ResultModel, answers: Answers)
    requires
        start.well_formed(),
        start.stage is Listing,
        start.current == 0,
    ensures
        in_step(
            start.after(answers),
            start.records_after(answers),
            result,
            start.result_after(result, answers),
        ),
    decreases answers.len(),
{
    if answers.len() == 0 {
        assert forall|kind: Kind| #[trigger] tallied(result, result, Seq::<RecordModel>::empty(), kind) by {
            assert(result.told(kind).subrange(0, result.told(kind).len() as int) =~= result.told(kind));
        }
    } else {
        let earlier = answers.drop_last();
        lemma_work_stays_in_step(start, result, earlier);
        lemma_work_stays_well_formed(start, earlier);
        lemma_step_keeps_in_step(
            start.after(earlier),
            answers.last().0,
            answers.last().1,
            start.records_after(earlier),
            result,
            start.result_after(result, earlier),
        );
    }
}

/// At every point of the work, what the result said before stays as it was, and what came to it is
/// one entry for each record of its kind. The records are about the worktrees in their order: record
/// number `i` is about worktree number `i`, of the kind of its outcome, and says what the result
/// says; or the worktrees could not be listed, which is the one record.
pub proof fn lemma_records_follow_the_worktrees(repo: RepoModel, dry_run: bool, result: ResultModel, answers: Answers)
    ensures
        ({
            let start = RunModel::start(repo, dry_run);
            let ws = start.after(answers).worktrees;
            let records = start.records_after(answers);
            let end = start.result_after(result, answers);
            &&& forall|kind: Kind| #[trigger] tallied(result, end, records, kind)
            &&& if records.len() <= ws.len() {
                forall|i: int| 0 <= i < records.len() ==> #[trigger] record_matches(records, ws, result, end, i)
            } else {
                ws.len() == 0 && records.len() == 1 && records[0] is Error
            }
        }),
{
    let start = RunModel::start(repo, dry_run);
    lemma_work_stays_well_formed(start, answers);
    lemma_work_stays_in_step(start, result, answers);
}

impl RunModel {
    /// Each of the answers belongs to what was to be done when it came.
    pub open spec fn all_answered(self, answers: Answers) -> bool
        decreases answers.len(),
    {
        answers.len() == 0 || self.all_answered(answers.drop_last()) && self.after(answers.drop_last()).answered_by(
            answers.last().0,
        )
    }
}

/// Git removed every worktree that it was asked to remove.
pub open spec fn removals_succeed(answers: Answers) -> bool {
    forall|i: int| 0 <= i < answers.len() ==> ((#[trigger] answers[i]).0 matches EventModel::Removed(done) ==> done is Ok)
}

/// Those of the answers that a dry run gets too: the list of worktrees and what GitHub says.
pub open spec fn rehearsed(answers: Answers) -> Answers
    decreases answers.len(),
{
    if answers.len() == 0 {
        answers
    } else {
        let earlier = rehearsed(answers.drop_last());
        match answers.last().0 {
            EventModel::Listed(_) | EventModel::Noted | EventModel::Checked(_) => earlier.push(answers.last()),
            _ => earlier,
        }
    }
}

/// The records say the same, whatever their times.
pub open spec fn same_but_times(a: Seq<RecordModel>, b: Seq<RecordModel>) -> bool {
    a.len() == b.len() && forall|i: int| 0 <= i < a.len() ==> (#[trigger] a[i]).untimed() == b[i].untimed()
}

/// How far a dry run is where a real one stands: it is ahead by a removal that is under way.
spec fn keeps_up(
    live: RunModel,
    dry: RunModel,
    live_end: ResultModel,
    dry_end: ResultModel,
    live_records: Seq<RecordModel>,
    dry_records: Seq<RecordModel>,
) -> bool {
    &&& live.repo == dry.repo && live.worktrees == dry.worktrees
    &&& !live.dry_run && dry.dry_run && !dry.had_removal
    &&& match live.stage {
        StageModel::Removing(pr) | StageModel::DeletingBranch(pr) => {
            let done = live.after_removal(live.worktrees[live.current].branch->0, pr, true, Seq::empty());
            &&& dry.current == live.current + 1
            &&& dry.stage == if dry.current < dry.worktrees.len() { StageModel::Looking } else { StageModel::Finished }
            &&& dry_end == live_end.changed(done.change)
            &&& same_but_times(live_records.push(done.record->0), dry_records)
        },
        _ => {
            &&& dry.current == live.current
            &&& dry.stage == if live.stage is Pruning { StageModel::Finished } else { live.stage }
            &&& dry_end == live_end
            &&& same_but_times(live_records, dry_records)
        },
    }
}

proof fn lemma_same_grow(a: Seq<RecordModel>, b: Seq<RecordModel>, x: RecordModel, y: RecordModel)
    requires
        same_but_times(a, b),
        x.untimed() == y.untimed(),
    ensures
        same_but_times(a.push(x), b.push(y)),
{
}

proof fn lemma_step_keeps_up(
    live: RunModel,
    dry: RunModel,
    live_end: ResultModel,
    dry_end: ResultModel,
    live_records: Seq<RecordModel>,
    dry_records: Seq<RecordModel>,
    event: EventModel,
    now: Seq<char>,
)
    requires
        live.well_formed(),
        dry.well_formed(),
        keeps_up(live, dry, live_end, dry_end, live_records, dry_records),
        live.answered_by(event),
        event matches EventModel::Removed(done) ==> done is Ok,
    ensures
        ({
            let step = live.step(event, now);
            let records = match step.record {
                Some(record) => live_records.push(record),
                None => live_records,
            };
            let asked = event is Listed || event is Noted || event is Checked;
            let dry_step = if asked { dry.step(event, now) } else { dry.unchanged() };
            let told = match dry_step.record {
                Some(record) => dry_records.push(record),
                None => dry_records,
            };
            keeps_up(
                step.run,
                dry_step.run,
                live_end.changed(step.change),
                dry_end.changed(dry_step.change),
                records,
                told,
            )
        }),
{
    let step = live.step(event, now);
    let w = live.worktrees[live.current];
    match live.stage {
        StageModel::Listing | StageModel::Looking => {
            let dry_step = dry.step(event, now);
            if let Some(record) = dry_step.record {
                if let Some(written) = step.record {
                    lemma_same_grow(live_records, dry_records, written, record);
                } else if let StageModel::Removing(pr) = step.run.stage {
                    let done = step.run.after_removal(w.branch->0, pr, true, Seq::empty());
                    lemma_same_grow(live_records, dry_records, done.record->0, record);
                }
            }
        },
        StageModel::DeletingBranch(pr) => {
            let done = live.after_removal(w.branch->0, pr, true, Seq::empty());
            let expected = live_records.push(done.record->0);
            let records = live_records.push(step.record->0);
            assert forall|i: int| 0 <= i < records.len() implies (#[trigger] records[i]).untimed()
                == dry_records[i].untimed() by {
                assert(expected[i].untimed() == dry_records[i].untimed());
            }
        },
        _ => {},
    }
}

proof fn lemma_dry_run_keeps_up(repo: RepoModel, result: ResultModel, answers: Answers)
    requires
        RunModel::start(repo, false).all_answered(answers),
        removals_succeed(answers),
    ensures
        ({
            let live = RunModel::start(repo, false);
            let dry = RunModel::start(repo, true);
            let asked = rehearsed(answers);
            keeps_up(
                live.after(answers),
                dry.after(asked),
                live.result_after(result, answers),
                dry.result_after(result, asked),
                live.records_after(answers),
                dry.records_after(asked),
            )
        }),
    decreases answers.len(),
{
    if answers.len() > 0 {
        let live = RunModel::start(repo, false);
        let dry = RunModel::start(repo, true);
        let earlier = answers.drop_last();
        let (event, now) = answers.last();
        let asked = rehearsed(answers);
        assert(answers[answers.len() - 1].0 == event);
        assert(removals_succeed(earlier)) by {
            assert forall|i: int| 0 <= i < earlier.len() implies ((#[trigger] earlier[i]).0 matches EventModel::Removed(
                done,
            ) ==> done is Ok) by {
                assert(answers[i] == earlier[i]);
            }
        }
        lemma_dry_run_keeps_up(repo, result, earlier);
        lemma_work_stays_well_formed(live, earlier);
        lemma_work_stays_well_formed(dry, rehearsed(earlier));
        lemma_step_keeps_up(
            live.after(earlier),
            dry.after(rehearsed(earlier)),
            live.result_after(result, earlier),
            dry.result_after(result, rehearsed(earlier)),
            live.records_after(earlier),
            dry.records_after(rehearsed(earlier)),
            event,
            now,
        );
        if event is Listed || event is Noted || event is Checked {
            assert(asked.drop_last() =~= rehearsed(earlier));
            assert(asked.last() == (event, now));
        }
    }
}

/// A dry run tells what a real run does: where the real run comes to its end and git removes every
/// worktree that it is asked to remove, the dry run on the same list and the same answers of GitHub
/// ends too, with the same result and, but for their times, with the same records.
pub proof fn lemma_dry_run_tells_what_a_real_run_does(repo: RepoModel, result: ResultModel, answers: Answers)
    requires
        RunModel::start(repo, false).all_answered(answers),
        RunModel::start(repo, false).after(answers).action() is Finish,
        removals_succeed(answers),
    ensures
        ({
            let live = RunModel::start(repo, false);
            let dry = RunModel::start(repo, true);
            let asked = rehearsed(answers);
            &&& dry.after(asked).action() is Finish
            &&& dry.result_after(result, asked) == live.result_after(result, answers)
            &&& same_but_times(live.records_after(answers), dry.records_after(asked))
        }),
{
    lemma_work_stays_well_formed(RunModel::start(repo, false), answers);
    lemma_dry_run_keeps_up(repo, result, answers);
}

/// Git is asked to prune only after a removal, and where there was a removal the work ends only
/// after pruning.
pub proof fn lemma_pruning_follows_removals(repo: RepoModel, result: ResultModel, answers: Answers, event: EventModel, now: Seq<char>)
    ensures
        ({
            let start = RunModel::start(repo, false);
            let run = start.after(answers);
            let next = run.step(event, now);
            let end = start.result_after(result, answers).changed(next.change);
            &&& run.action() is Prune ==> start.result_after(result, answers).removed.len() > result.removed.len()
            &&& next.run.action() is Finish && run.action() !is Finish ==> (run.action() is Prune
                <==> end.removed.len() > result.removed.len())
        }),
{
    let start = RunModel::start(repo, false);
    let more = answers.push((event, now));
    assert(more.drop_last() =~= answers);
    lemma_work_stays_well_formed(start, answers);
    lemma_work_stays_well_formed(start, more);
    lemma_counts(start, result, answers);
    lemma_counts(start, result, more);
}

/// Each answer brings the end nearer: the first one makes the worktrees known, and each later one
/// lowers the number of answers that can still come.
pub proof fn lemma_work_comes_to_an_end(run: RunModel, event: EventModel, now: Seq<char>)
    requires
        run.well_formed(),
        run.answered_by(event),
    ensures
        ({
            let next = run.step(event, now).run;
            &&& next.action() !is ListWorktrees
            &&& next.remaining() >= 0
            &&& run.action() !is ListWorktrees ==> next.remaining() < run.remaining()
        }),
{
    lemma_step_keeps_well_formed(run, event, now);
}

/// The result of a run over several repositories, each with its answers.
pub open spec fn result_over(repos: Seq<(RepoModel, Answers)>, dry_run: bool, result: ResultModel) -> ResultModel
    decreases repos.len(),
{
    if repos.len() == 0 {
        result
    } else {
        let (repo, answers) = repos.last();
        RunModel::start(repo, dry_run).result_after(result_over(repos.drop_last(), dry_run, result), answers)
    }
}

/// The work on each of the repositories has come to its end.
pub open spec fn all_finished(repos: Seq<(RepoModel, Answers)>, dry_run: bool) -> bool {
    forall|i: int|
        0 <= i < repos.len() ==> RunModel::start((#[trigger] repos[i]).0, dry_run).after(repos[i].1).action() is Finish
}

/// A whole run accounts for every worktree that it counts: each has been removed, skipped or
/// reported, and what is reported besides is at most one failure to list worktrees for each
/// repository.
pub proof fn lemma_run_accounts_for_every_worktree(repos: Seq<(RepoModel, Answers)>, dry_run: bool, result: ResultModel)
    requires
        all_finished(repos, dry_run),
    ensures
        ({
            let end = result_over(repos, dry_run, result);
            let scanned = end.scanned_worktrees - result.scanned_worktrees;
            let outcomes = end.outcomes() - result.outcomes();
            &&& scanned <= outcomes <= scanned + repos.len()
            &&& end.scanned_repos == result.scanned_repos
        }),
    decreases repos.len(),
{
    if repos.len() > 0 {
        let before = repos.drop_last();
        let (repo, answers) = repos.last();
        assert forall|i: int| 0 <= i < before.len() implies RunModel::start((#[trigger] before[i]).0, dry_run).after(
            before[i].1,
        ).action() is Finish by {
            assert(before[i] == repos[i]);
        }
        lemma_run_accounts_for_every_worktree(before, dry_run, result);
        let start = RunModel::start(repo, dry_run);
        let so_far = result_over(before, dry_run, result);
        assert(repos[repos.len() - 1] == (repo, answers));
        lemma_each_worktree_has_one_outcome(repo, dry_run, so_far, answers);
        lemma_counts(start, so_far, answers);
    }
}

/// The records of a run over several repositories, each with its answers.
pub open spec fn records_over(repos: Seq<(RepoModel, Answers)>, dry_run: bool) -> Seq<RecordModel>
    decreases repos.len(),
{
    if repos.len() == 0 {
        Seq::empty()
    } else {
        let (repo, answers) = repos.last();
        records_over(repos.drop_last(), dry_run) + RunModel::start(repo, dry_run).records_after(answers)
    }
}

proof fn lemma_count_of_both(a: Seq<RecordModel>, b: Seq<RecordModel>, kind: Kind)
    ensures
        count_of(a + b, kind) == count_of(a, kind) + count_of(b, kind),
    decreases b.len(),
{
    if b.len() == 0 {
        assert(a + b =~= a);
    } else {
        assert((a + b).drop_last() =~= a + b.drop_last());
        lemma_count_of_both(a, b.drop_last(), kind);
    }
}

proof fn lemma_no_summary(start: RunModel, answers: Answers)
    requires
        start.well_formed(),
    ensures
        forall|i: int| 0 <= i < start.records_after(answers).len() ==> (#[trigger] start.records_after(answers)[i])
            !is Summary,
    decreases answers.len(),
{
    if answers.len() > 0 {
        lemma_no_summary(start, answers.drop_last());
        lemma_work_stays_well_formed(start, answers.drop_last());
    }
}

/// A whole run counts the repositories that it was begun with. What it tells of the worktrees grows,
/// for each kind of outcome, by one entry for each record of that kind over all the repositories,
/// behind what was there; and none of those records is a summary.
pub proof fn lemma_run_tallies_its_records(repos: Seq<(RepoModel, Answers)>, dry_run: bool, result: ResultModel)
    ensures
        result_over(repos, dry_run, result).scanned_repos == result.scanned_repos,
        forall|kind: Kind| #[trigger]
            tallied(result, result_over(repos, dry_run, result), records_over(repos, dry_run), kind),
        forall|i: int| 0 <= i < records_over(repos, dry_run).len() ==> (#[trigger] records_over(repos, dry_run)[i])
            !is Summary,
    decreases repos.len(),
{
    let end = result_over(repos, dry_run, result);
    let records = records_over(repos, dry_run);
    if repos.len() == 0 {
        assert forall|kind: Kind| #[trigger] tallied(result, end, records, kind) by {
            assert(result.told(kind).subrange(0, result.told(kind).len() as int) =~= result.told(kind));
        }
    } else {
        let before = repos.drop_last();
        let (repo, answers) = repos.last();
        let start = RunModel::start(repo, dry_run);
        let so_far = result_over(before, dry_run, result);
        let written = records_over(before, dry_run);
        let more = start.records_after(answers);
        lemma_run_tallies_its_records(before, dry_run, result);
        lemma_counts(start, so_far, answers);
        lemma_work_stays_in_step(start, so_far, answers);
        lemma_no_summary(start, answers);
        assert forall|kind: Kind| #[trigger] tallied(result, end, records, kind) by {
            assert(tallied(result, so_far, written, kind));
            assert(tallied(so_far, end, more, kind));
            lemma_count_of_both(written, more, kind);
            let n = result.told(kind).len() as int;
            assert(end.told(kind).subrange(0, n) =~= so_far.told(kind).subrange(0, n)) by {
                assert forall|i: int| 0 <= i < n implies end.told(kind)[i] == so_far.told(kind)[i] by {
                    let whole = end.told(kind).subrange(0, so_far.told(kind).len() as int);
                    assert(whole[i] == end.told(kind)[i]);
                }
            }
        }
        assert forall|i: int| 0 <= i < records.len() implies (#[trigger] records[i]) !is Summary by {
            if i < written.len() {
                assert(records[i] == written[i]);
            } else {
                assert(records[i] == more[i - written.len()]);
            }
        }
    }
}

} // verus!
