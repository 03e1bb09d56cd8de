//! The cleanup itself: which worktrees there are, which of them may go, and what is recorded.
use crate::command;
use crate::command::{CommandLine, CommandModel, Outcome, OutcomeModel};
use crate::error::{Error, ErrorModel};
use crate::names;
use crate::paths;
use crate::text;
use vstd::prelude::*;

verus! {

/// A repository on GitHub, and where it lies on disk.
#[derive(Debug)]
pub struct RepoInfo {
    pub path: String,
    pub owner: String,
    pub repo: String,
}

/// What a [`RepoInfo`] says.
#[verifier::ext_equal]
pub struct RepoModel {
    pub path: Seq<char>,
    pub owner: Seq<char>,
    pub repo: Seq<char>,
}

impl View for RepoInfo {
    type V = RepoModel;

    open spec fn view(&self) -> RepoModel {
        RepoModel { path: self.path@, owner: self.owner@, repo: self.repo@ }
    }
}

impl DeepView for RepoInfo {
    type V = RepoModel;

    open spec fn deep_view(&self) -> RepoModel {
        self@
    }
}

/// One entry of the list of worktrees. Without a branch its head is detached.
#[derive(Debug)]
pub struct WorktreeEntry {
    pub path: String,
    pub branch: Option<String>,
    pub is_main: bool,
}

/// What a [`WorktreeEntry`] says.
#[verifier::ext_equal]
pub struct WorktreeModel {
    pub path: Seq<char>,
    pub branch: Option<Seq<char>>,
    pub is_main: bool,
}

impl View for WorktreeEntry {
    type V = WorktreeModel;

    open spec fn view(&self) -> WorktreeModel {
        WorktreeModel { path: self.path@, branch: self.branch.deep_view(), is_main: self.is_main }
    }
}

impl DeepView for WorktreeEntry {
    type V = WorktreeModel;

    open spec fn deep_view(&self) -> WorktreeModel {
        self@
    }
}

/// A merged pull request.
#[derive(Debug)]
pub struct GhPr {
    pub number: u64,
    pub url: String,
}

/// What a [`GhPr`] says.
#[verifier::ext_equal]
pub struct PrModel {
    pub number: u64,
    pub url: Seq<char>,
}

impl View for GhPr {
    type V = PrModel;

    open spec fn view(&self) -> PrModel {
        PrModel { number: self.number, url: self.url@ }
    }
}

impl DeepView for GhPr {
    type V = PrModel;

    open spec fn deep_view(&self) -> PrModel {
        self@
    }
}

/// The owner and the repository that the part of a GitHub URL behind the host names.
pub open spec fn owner_repo(part: Seq<char>) -> Option<(Seq<char>, Seq<char>)> {
    let path = text::without_suffixes(part, ".git"@);
    let slash = text::first_at(path, '/') as int;
    if 0 < slash < path.len() - 1 {
        Some((path.subrange(0, slash), text::after(path, slash + 1)))
    } else {
        None
    }
}

/// Owner and repository of a remote URL, or the words for why it has none.
pub open spec fn remote_owner_repo(url: Seq<char>) -> Result<(Seq<char>, Seq<char>), ErrorModel> {
    let https = "https://github.com/"@;
    let ssh = "git@github.com:"@;
    if !text::has_prefix(url, https) && !text::has_prefix(url, ssh) {
        Err(ErrorModel::plain("Not a GitHub URL: "@ + url))
    } else {
        let part = text::after(url, if text::has_prefix(url, https) { https.len() as int } else { ssh.len() as int });
        match owner_repo(part) {
            Some(names) => Ok(names),
            None => Err(ErrorModel::plain("Cannot parse owner/repo from: "@ + url)),
        }
    }
}

/// The text of an owner and a repository, and the error.
pub open spec fn owner_repo_result(r: Result<(String, String), Error>) -> Result<(Seq<char>, Seq<char>), ErrorModel> {
    match r {
        Ok((owner, repo)) => Ok((owner@, repo@)),
        Err(e) => Err(e@),
    }
}

/// Reads owner and repository off the URL of a remote on GitHub.
pub fn parse_owner_repo(url: &str) -> (r: Result<(String, String), Error>)
    ensures
        owner_repo_result(r) == remote_owner_repo(url@),
{
    let part = match text::strip_prefix(url, "https://github.com/") {
        Some(rest) => rest,
        None => match text::strip_prefix(url, "git@github.com:") {
            Some(rest) => rest,
            None => {
                let mut text = "Not a GitHub URL: ".to_owned();
                text.append(url);
                return Err(Error::new(text));
            },
        },
    };
    proof {
        reveal_strlit(".git");
    }
    let path = text::trim_suffixes(part, ".git");
    let n = path.unicode_len();
    if let Some(slash) = text::find(path, '/') {
        if slash > 0 && slash + 1 < n {
            return Ok((path.substring_char(0, slash).to_owned(), path.substring_char(slash + 1, n).to_owned()));
        }
    }
    let mut text = "Cannot parse owner/repo from: ".to_owned();
    text.append(url);
    Err(Error::new(text))
}

/// What the last line of a block that starts with `field` says behind it.
pub open spec fn last_field(block: Seq<Seq<char>>, field: Seq<char>) -> Option<Seq<char>>
    decreases block.len(),
{
    if block.len() == 0 {
        None
    } else if text::has_prefix(block.last(), field) {
        Some(text::after(block.last(), field.len() as int))
    } else {
        last_field(block.drop_last(), field)
    }
}

/// The worktree that a block of lines describes, if it names one.
pub open spec fn block_entry(block: Seq<Seq<char>>, main_repo: Seq<char>) -> Seq<WorktreeModel> {
    match last_field(block, "worktree "@) {
        Some(path) => seq![
            WorktreeModel {
                path,
                branch: last_field(block, "branch refs/heads/"@),
                is_main: paths::same_place(path, main_repo),
            },
        ],
        None => Seq::empty(),
    }
}

/// The first empty line, or the number of lines where none is empty.
pub open spec fn first_empty(ls: Seq<Seq<char>>) -> nat
    decreases ls.len(),
{
    if ls.len() == 0 || ls[0].len() == 0 {
        0
    } else {
        1 + first_empty(ls.drop_first())
    }
}

/// The worktrees that blocks of lines describe. An empty line ends a block.
pub open spec fn block_entries(ls: Seq<Seq<char>>, main_repo: Seq<char>) -> Seq<WorktreeModel>
    decreases ls.len(),
{
    let end = first_empty(ls) as int;
    if end >= ls.len() {
        block_entry(ls, main_repo)
    } else {
        block_entry(ls.subrange(0, end), main_repo) + block_entries(
            ls.subrange(end + 1, ls.len() as int),
            main_repo,
        )
    }
}

proof fn lemma_first_empty(ls: Seq<Seq<char>>, n: int)
    requires
        0 <= n <= ls.len(),
        forall|i: int| 0 <= i < n ==> (#[trigger] ls[i]).len() > 0,
        n < ls.len() ==> ls[n].len() == 0,
    ensures
        first_empty(ls) == n,
    decreases n,
{
    if n > 0 {
        lemma_first_empty(ls.drop_first(), n - 1);
    }
}

fn entry_of(path: Option<String>, branch: Option<String>, main_repo: &str, entries: &mut Vec<WorktreeEntry>)
    ensures
        final(entries).deep_view() == old(entries).deep_view() + (match path {
            Some(path) => seq![
                WorktreeModel {
                    path: path@,
                    branch: branch.deep_view(),
                    is_main: paths::same_place(path@, main_repo@),
                },
            ],
            None => Seq::empty(),
        }),
{
    let ghost before = entries.deep_view();
    match path {
        Some(path) => {
            let is_main = paths::same_path(path.as_str(), main_repo);
            names::put(entries, WorktreeEntry { path, branch, is_main });
            assert(entries.deep_view() =~= before + seq![entries.deep_view().last()]);
        },
        None => {
            assert(before + Seq::<WorktreeModel>::empty() =~= before);
        },
    }
}

/// Reads what `git worktree list --porcelain` writes. The worktree at `main_repo` is the main one.
pub fn parse_worktree_porcelain(output: &str, main_repo: &str) -> (r: Result<Vec<WorktreeEntry>, Error>)
    ensures
        listing_model(r) == Ok::<_, ErrorModel>(block_entries(text::lines(output@), main_repo@)),
{
    let ls = text::split_lines(output);
    let ghost all = ls.deep_view();
    let mut entries: Vec<WorktreeEntry> = Vec::new();
    let mut current_path: Option<String> = None;
    let mut current_branch: Option<String> = None;
    let ghost mut start: int = 0;
    let mut i: usize = 0;
    proof {
        assert(all.subrange(0, all.len() as int) =~= all);
        assert(entries.deep_view() + block_entries(all, main_repo@) =~= block_entries(all, main_repo@));
        assert(all.subrange(0, 0) =~= Seq::empty());
    }
    while i < ls.len()
        invariant
            all == ls.deep_view(),
            0 <= start <= i <= ls.len(),
            forall|j: int| start <= j < i ==> (#[trigger] all[j]).len() > 0,
            current_path.deep_view() == last_field(all.subrange(start, i as int), "worktree "@),
            current_branch.deep_view() == last_field(all.subrange(start, i as int), "branch refs/heads/"@),
            block_entries(all, main_repo@) == entries.deep_view() + block_entries(
                all.subrange(start, all.len() as int),
                main_repo@,
            ),
        decreases ls.len() - i,
    {
        let line = ls[i];
        let ghost block = all.subrange(start, i as int);
        let ghost rest = all.subrange(start, all.len() as int);
        proof {
            assert(all[i as int] == line@);
            assert(all.subrange(start, i + 1).drop_last() =~= block);
            assert(all.subrange(start, i + 1).last() == line@);
            reveal_strlit("worktree ");
            reveal_strlit("branch refs/heads/");
        }
        if line.is_empty() {
            let ghost before = entries.deep_view();
            entry_of(current_path, current_branch, main_repo, &mut entries);
            current_path = None;
            current_branch = None;
            proof {
                lemma_first_empty(rest, i - start);
                assert(rest.subrange(0, i - start) =~= block);
                let next = all.subrange(i + 1, all.len() as int);
                assert(rest.subrange(i - start + 1, rest.len() as int) =~= next);
                assert(entries.deep_view() == before + block_entry(block, main_repo@));
                assert(before + (block_entry(block, main_repo@) + block_entries(next, main_repo@))
                    =~= entries.deep_view() + block_entries(next, main_repo@));
                start = i + 1;
                assert(all.subrange(start, start) =~= Seq::empty());
            }
        } else if let Some(rest) = text::strip_prefix(line, "worktree ") {
            current_path = Some(rest.to_owned());
            assert(line@[0] == "worktree "@[0]) by {
                assert(line@.subrange(0, "worktree "@.len() as int)[0] == line@[0]);
            }
            proof {
                if text::has_prefix(line@, "branch refs/heads/"@) {
                    assert(line@.subrange(0, "branch refs/heads/"@.len() as int)[0] == line@[0]);
                }
            }
        } else if let Some(rest) = text::strip_prefix(line, "branch refs/heads/") {
            current_branch = Some(rest.to_owned());
        }
        i = i + 1;
    }
    let ghost block = all.subrange(start, all.len() as int);
    let ghost before = entries.deep_view();
    proof {
        lemma_first_empty(block, block.len() as int);
    }
    entry_of(current_path, current_branch, main_repo, &mut entries);
    assert(entries.deep_view() == before + block_entry(block, main_repo@));
    Ok(entries)
}

/// A call of git with these arguments.
pub open spec fn git(args: Seq<Seq<char>>) -> CommandModel {
    CommandModel { program: "git"@, args }
}

/// The call that asks for the URL of the remote `origin`.
pub open spec fn remote_url_call() -> CommandModel {
    git(seq!["remote"@, "get-url"@, "origin"@])
}

/// The call that asks for the worktrees of a repository.
pub open spec fn worktree_list_call() -> CommandModel {
    git(seq!["worktree"@, "list"@, "--porcelain"@])
}

/// The call that removes a worktree.
pub open spec fn worktree_remove_call(path: Seq<char>) -> CommandModel {
    git(seq!["worktree"@, "remove"@, "--force"@, path])
}

/// The call that deletes a local branch.
pub open spec fn branch_delete_call(branch: Seq<char>) -> CommandModel {
    git(seq!["branch"@, "-D"@, branch])
}

/// The call that makes git forget worktrees that are gone.
pub open spec fn prune_call() -> CommandModel {
    git(seq!["worktree"@, "prune"@])
}

/// The call that asks GitHub for one merged pull request whose head is that branch.
pub open spec fn merged_pr_call(owner: Seq<char>, repo: Seq<char>, branch: Seq<char>) -> CommandModel {
    CommandModel {
        program: "gh"@,
        args: seq![
            "pr"@,
            "list"@,
            "--repo"@,
            full_name(owner, repo),
            "--head"@,
            branch,
            "--state"@,
            "merged"@,
            "--json"@,
            "number,url"@,
            "--limit"@,
            "1"@,
        ],
    }
}

/// Asks git for the URL of the remote `origin`.
pub fn remote_url_command() -> (r: CommandLine)
    ensures
        r@ == remote_url_call(),
{
    CommandLine::new("git").arg("remote").arg("get-url").arg("origin")
}

/// Asks git for the worktrees of a repository.
pub fn worktree_list_command() -> (r: CommandLine)
    ensures
        r@ == worktree_list_call(),
{
    CommandLine::new("git").arg("worktree").arg("list").arg("--porcelain")
}

/// Asks git to remove a worktree.
pub fn worktree_remove_command(path: &str) -> (r: CommandLine)
    ensures
        r@ == worktree_remove_call(path@),
{
    CommandLine::new("git").arg("worktree").arg("remove").arg("--force").arg(path)
}

/// Asks git to delete a local branch.
pub fn branch_delete_command(branch: &str) -> (r: CommandLine)
    ensures
        r@ == branch_delete_call(branch@),
{
    CommandLine::new("git").arg("branch").arg("-D").arg(branch)
}

/// Asks git to forget worktrees that are gone.
pub fn prune_command() -> (r: CommandLine)
    ensures
        r@ == prune_call(),
{
    CommandLine::new("git").arg("worktree").arg("prune")
}

/// `owner/repo`.
pub open spec fn full_name(owner: Seq<char>, repo: Seq<char>) -> Seq<char> {
    owner + "/"@ + repo
}

/// `owner/repo`.
pub fn full_repo_name(owner: &str, repo: &str) -> (r: String)
    ensures
        r@ == full_name(owner@, repo@),
{
    let mut name = owner.to_owned();
    name.append("/");
    name.append(repo);
    name
}

/// Asks GitHub for one merged pull request whose head is that branch.
pub fn merged_pr_command(owner: &str, repo: &str, branch: &str) -> (r: CommandLine)
    ensures
        r@ == merged_pr_call(owner@, repo@, branch@),
{
    CommandLine::new("gh").arg("pr").arg("list").arg("--repo").arg(full_repo_name(owner, repo).as_str())
        .arg("--head").arg(branch).arg("--state").arg("merged").arg("--json").arg("number,url")
        .arg("--limit").arg("1")
}

/// Owner and repository, as the answer to [`remote_url_command`] tells them.
pub open spec fn remote_answer(path: Seq<char>, outcome: OutcomeModel) -> Result<(Seq<char>, Seq<char>), ErrorModel> {
    match outcome {
        OutcomeModel::NotStarted { cause } => Err(ErrorModel::caused("Failed to run git remote get-url"@, cause)),
        OutcomeModel::Exited { success, stdout, .. } => if success {
            remote_owner_repo(text::trim(stdout))
        } else {
            Err(ErrorModel::plain("git remote get-url failed for "@ + path))
        },
    }
}

/// Reads owner and repository off the answer to [`remote_url_command`].
pub fn parse_github_remote(path: &str, outcome: &Outcome) -> (r: Result<(String, String), Error>)
    ensures
        owner_repo_result(r) == remote_answer(path@, outcome@),
{
    match outcome {
        Outcome::NotStarted { cause } => Err(
            Error::caused_by("Failed to run git remote get-url".to_owned(), cause.clone()),
        ),
        Outcome::Exited { success, stdout, .. } => {
            if *success {
                parse_owner_repo(text::trimmed(stdout.as_str()))
            } else {
                let mut text = "git remote get-url failed for ".to_owned();
                text.append(path);
                Err(Error::new(text))
            }
        },
    }
}

/// The worktrees and the error of a listing, as their models.
pub open spec fn listing_model(r: Result<Vec<WorktreeEntry>, Error>) -> Result<Seq<WorktreeModel>, ErrorModel> {
    match r {
        Ok(entries) => Ok(entries.deep_view()),
        Err(e) => Err(e@),
    }
}

/// The worktrees with the first of them known as the main one.
pub open spec fn main_first(all: Seq<WorktreeModel>) -> Seq<WorktreeModel> {
    if all.len() == 0 {
        all
    } else {
        all.update(0, WorktreeModel { is_main: true, ..all[0] })
    }
}

/// The worktrees, as the answer to [`worktree_list_command`] tells them.
pub open spec fn listing_answer(path: Seq<char>, outcome: OutcomeModel) -> Result<Seq<WorktreeModel>, ErrorModel> {
    match outcome.required("Failed to run git worktree list"@, "git worktree list"@) {
        Ok(stdout) => Ok(main_first(block_entries(text::lines(stdout), path))),
        Err(e) => Err(e),
    }
}

/// Reads the worktrees off the answer to [`worktree_list_command`]. Git lists the main worktree
/// first, so the first one is the main one however `path` is spelled; one that lies at `path` is
/// taken for it too.
pub fn list_worktrees(path: &str, outcome: Outcome) -> (r: Result<Vec<WorktreeEntry>, Error>)
    ensures
        listing_model(r) == listing_answer(path@, outcome@),
{
    let stdout = match command::require_success(outcome, "Failed to run git worktree list", "git worktree list") {
        Ok(stdout) => stdout,
        Err(e) => return Err(e),
    };
    let mut all = match parse_worktree_porcelain(stdout.as_str(), path) {
        Ok(all) => all,
        Err(e) => return Err(e),
    };
    let ghost read = all.deep_view();
    if all.len() > 0 {
        let first = WorktreeEntry { path: all[0].path.clone(), branch: all[0].branch.clone(), is_main: true };
        assert(first@ == WorktreeModel { is_main: true, ..read[0] });
        all.set(0, first);
    }
    assert(all.deep_view() =~= main_first(read));
    Ok(all)
}

/// The pull request and the error of a check, as their models.
pub open spec fn check_model(r: Result<Option<GhPr>, Error>) -> Result<Option<PrModel>, ErrorModel> {
    match r {
        Ok(pr) => Ok(pr.deep_view()),
        Err(e) => Err(e@),
    }
}

/// The merged pull request, as the answer to [`merged_pr_command`] tells it.
pub open spec fn merged_answer(outcome: OutcomeModel, listed: Result<Seq<PrModel>, Seq<char>>) -> Result<
    Option<PrModel>,
    ErrorModel,
> {
    match outcome.required("Failed to run gh pr list"@, "gh pr list"@) {
        Ok(stdout) => match listed {
            Ok(prs) => Ok(if prs.len() > 0 { Some(prs[0]) } else { None }),
            Err(cause) => Err(ErrorModel::caused("Failed to parse gh output: "@ + stdout, cause)),
        },
        Err(e) => Err(e),
    }
}

/// Reads the answer to [`merged_pr_command`]: the first of the pull requests in it, where there is
/// one. `listed` is what the output holds, or the reason why it is not such a list.
pub fn is_branch_merged(outcome: Outcome, listed: Result<Vec<GhPr>, String>) -> (r: Result<Option<GhPr>, Error>)
    ensures
        check_model(r) == merged_answer(
            outcome@,
            match listed {
                Ok(prs) => Ok(prs.deep_view()),
                Err(cause) => Err(cause@),
            },
        ),
{
    match command::require_success(outcome, "Failed to run gh pr list", "gh pr list") {
        Ok(stdout) => match listed {
            Ok(prs) => {
                let mut prs = prs;
                if prs.len() > 0 {
                    Ok(Some(prs.swap_remove(0)))
                } else {
                    Ok(None)
                }
            },
            Err(cause) => {
                let mut text = "Failed to parse gh output: ".to_owned();
                text.append(stdout.as_str());
                Err(Error::caused_by(text, cause))
            },
        },
        Err(e) => Err(e),
    }
}

/// The error of a step, as its model.
pub open spec fn done_model(r: Result<(), Error>) -> Result<(), ErrorModel> {
    match r {
        Ok(()) => Ok(()),
        Err(e) => Err(e@),
    }
}

/// What came of the call, as the answer to [`worktree_remove_command`] tells it.
pub open spec fn removal_answer(outcome: OutcomeModel) -> Result<(), ErrorModel> {
    match outcome.required("Failed to run git worktree remove"@, "git worktree remove"@) {
        Ok(_) => Ok(()),
        Err(e) => Err(e),
    }
}

/// Reads the answer to [`worktree_remove_command`].
pub fn remove_worktree(outcome: Outcome) -> (r: Result<(), Error>)
    ensures
        done_model(r) == removal_answer(outcome@),
{
    match command::require_success(outcome, "Failed to run git worktree remove", "git worktree remove") {
        Ok(_) => Ok(()),
        Err(e) => Err(e),
    }
}

/// What came of the call, as the answer to [`prune_command`] tells it.
pub open spec fn prune_answer(outcome: OutcomeModel) -> Result<(), ErrorModel> {
    match outcome.required("Failed to run git worktree prune"@, "git worktree prune"@) {
        Ok(_) => Ok(()),
        Err(e) => Err(e),
    }
}

/// Reads the answer to [`prune_command`].
pub fn prune_worktrees(outcome: Outcome) -> (r: Result<(), Error>)
    ensures
        done_model(r) == prune_answer(outcome@),
{
    match command::require_success(outcome, "Failed to run git worktree prune", "git worktree prune") {
        Ok(_) => Ok(()),
        Err(e) => Err(e),
    }
}

/// Something that lies in the scanned directory.
#[derive(Debug)]
pub struct DirectoryEntry {
    pub path: String,
    pub is_dir: bool,
    /// It holds a directory `.git`, so it is a repository and not an extra worktree.
    pub has_git_dir: bool,
}

/// What a [`DirectoryEntry`] says.
pub struct EntryModel {
    pub path: Seq<char>,
    pub is_dir: bool,
    pub has_git_dir: bool,
}

impl View for DirectoryEntry {
    type V = EntryModel;

    open spec fn view(&self) -> EntryModel {
        EntryModel { path: self.path@, is_dir: self.is_dir, has_git_dir: self.has_git_dir }
    }
}

impl DeepView for DirectoryEntry {
    type V = EntryModel;

    open spec fn deep_view(&self) -> EntryModel {
        self@
    }
}

/// The paths of the repositories among the entries, as they stand.
pub open spec fn repo_paths(entries: Seq<EntryModel>) -> Seq<Seq<char>>
    decreases entries.len(),
{
    if entries.len() == 0 {
        Seq::empty()
    } else {
        let before = repo_paths(entries.drop_last());
        let last = entries.last();
        if last.is_dir && last.has_git_dir {
            before.push(last.path)
        } else {
            before
        }
    }
}

/// The repositories among the entries of one directory, in order.
pub fn find_repos(entries: Vec<DirectoryEntry>) -> (r: Vec<String>)
    ensures
        names::sorted_from::<String>(repo_paths(entries.deep_view()), r.deep_view()),
        r.deep_view().len() == repo_paths(entries.deep_view()).len(),
{
    let ghost models = entries.deep_view();
    let ghost items = entries@;
    let mut repos: Vec<String> = Vec::new();
    assert(repos.deep_view() =~= repo_paths(models.subrange(0, 0)));
    for entry in it: entries
        invariant
            it.seq() == items,
            models.len() == items.len(),
            forall|i: int| 0 <= i < items.len() ==> models[i] == (#[trigger] items[i])@,
            repos.deep_view() == repo_paths(models.subrange(0, it.index())),
    {
        proof {
            let now = models.subrange(0, it.index() + 1);
            assert(now.drop_last() =~= models.subrange(0, it.index()));
            assert(now.last() == entry@);
        }
        if entry.is_dir && entry.has_git_dir {
            names::put(&mut repos, entry.path);
        }
    }
    assert(models.subrange(0, models.len() as int) =~= models);
    names::sort_by_name(&mut repos);
    repos
}

/// What the answers to [`remote_url_command`] come to, one for each repository: the repositories
/// that lie on GitHub, and a line about each of the others.
pub open spec fn github_part(found: Seq<(Seq<char>, OutcomeModel)>) -> (Seq<RepoModel>, Seq<Seq<char>>)
    decreases found.len(),
{
    if found.len() == 0 {
        (Seq::empty(), Seq::empty())
    } else {
        let (repos, lines) = github_part(found.drop_last());
        let (path, outcome) = found.last();
        match remote_answer(path, outcome) {
            Ok((owner, repo)) => (repos.push(RepoModel { path, owner, repo }), lines),
            Err(e) => (repos, lines.push("Skipping "@ + path + " (not a GitHub repo: "@ + e.text + ")"@)),
        }
    }
}

/// The paths and answers, as their models.
pub open spec fn found_model(found: Seq<(String, Outcome)>) -> Seq<(Seq<char>, OutcomeModel)> {
    Seq::new(found.len(), |i: int| (found[i].0@, found[i].1@))
}

/// Keeps the repositories that lie on GitHub, and says why each of the others is skipped.
pub fn github_repos(found: Vec<(String, Outcome)>) -> (r: (Vec<RepoInfo>, Vec<String>))
    ensures
        (r.0.deep_view(), r.1.deep_view()) == github_part(found_model(found@)),
{
    let ghost models = found_model(found@);
    let ghost items = found@;
    let mut repos: Vec<RepoInfo> = Vec::new();
    let mut lines: Vec<String> = Vec::new();
    proof {
        assert(repos.deep_view() =~= Seq::empty());
        assert(lines.deep_view() =~= Seq::empty());
    }
    for pair in it: found
        invariant
            it.seq() == items,
            models == found_model(items),
            (repos.deep_view(), lines.deep_view()) == github_part(models.subrange(0, it.index())),
    {
        proof {
            let now = models.subrange(0, it.index() + 1);
            assert(now.drop_last() =~= models.subrange(0, it.index()));
            assert(now.last() == (pair.0@, pair.1@));
        }
        let (path, outcome) = pair;
        match parse_github_remote(path.as_str(), &outcome) {
            Ok((owner, repo)) => {
                names::put(&mut repos, RepoInfo { path, owner, repo });
            },
            Err(e) => {
                let mut line = "Skipping ".to_owned();
                line.append(path.as_str());
                line.append(" (not a GitHub repo: ");
                line.append(e.message());
                line.append(")");
                names::put(&mut lines, line);
            },
        }
    }
    assert(models.subrange(0, models.len() as int) =~= models);
    (repos, lines)
}

/// The test for repositories on GitHub.
pub open spec fn is_on_github() -> spec_fn((Seq<char>, OutcomeModel)) -> bool {
    |found: (Seq<char>, OutcomeModel)| remote_answer(found.0, found.1) is Ok
}

/// Every repository that was found is kept, where its remote is on GitHub, or skipped with a line:
/// those that are kept are those on GitHub, one for each and in their order.
pub proof fn lemma_repositories_are_kept_or_skipped(found: Seq<(Seq<char>, OutcomeModel)>)
    ensures
        ({
            let kept = found.filter(is_on_github());
            let (repos, lines) = github_part(found);
            &&& repos.len() == kept.len()
            &&& repos.len() + lines.len() == found.len()
            &&& forall|i: int|
                0 <= i < repos.len() ==> (#[trigger] repos[i]).path == kept[i].0 && remote_answer(kept[i].0, kept[i].1)
                    == Ok::<_, ErrorModel>((repos[i].owner, repos[i].repo))
        }),
    decreases found.len(),
{
    reveal(Seq::filter);
    if found.len() > 0 {
        lemma_repositories_are_kept_or_skipped(found.drop_last());
    }
}

/// Something that must be there before a run.
#[derive(Debug, Clone, Copy, PartialEq, Eq, Structural)]
pub enum Prerequisite {
    Git,
    GitHubCli,
    GitHubLogin,
}

impl Prerequisite {
    /// The command that tells whether it is there.
    pub open spec fn probe(self) -> CommandModel {
        match self {
            Prerequisite::Git => CommandModel { program: "git"@, args: seq!["--version"@] },
            Prerequisite::GitHubCli => CommandModel { program: "gh"@, args: seq!["--version"@] },
            Prerequisite::GitHubLogin => CommandModel { program: "gh"@, args: seq!["auth"@, "status"@] },
        }
    }

    /// What comes of the answer: the next thing to look for, the end of the list, or the complaint.
    pub open spec fn verdict(self, outcome: OutcomeModel) -> Result<Option<Prerequisite>, ErrorModel> {
        match self {
            Prerequisite::Git => if outcome.succeeded() {
                Ok(Some(Prerequisite::GitHubCli))
            } else {
                Err(ErrorModel::plain("git is not installed or not in PATH"@))
            },
            Prerequisite::GitHubCli => if outcome.succeeded() {
                Ok(Some(Prerequisite::GitHubLogin))
            } else {
                Err(ErrorModel::plain("gh is not installed or not in PATH"@))
            },
            Prerequisite::GitHubLogin => if let OutcomeModel::NotStarted { cause } = outcome {
                Err(ErrorModel::caused("Failed to check gh auth"@, cause))
            } else if outcome.succeeded() {
                Ok(None)
            } else {
                Err(ErrorModel::plain("gh is not authenticated. Run `gh auth login` first."@))
            },
        }
    }

    /// The command that tells whether it is there.
    pub fn probe_command(self) -> (r: CommandLine)
        ensures
            r@ == self.probe(),
    {
        match self {
            Prerequisite::Git => CommandLine::new("git").arg("--version"),
            Prerequisite::GitHubCli => CommandLine::new("gh").arg("--version"),
            Prerequisite::GitHubLogin => CommandLine::new("gh").arg("auth").arg("status"),
        }
    }
}

/// The error of a verdict, as its model.
pub open spec fn verdict_model(r: Result<Option<Prerequisite>, Error>) -> Result<Option<Prerequisite>, ErrorModel> {
    match r {
        Ok(next) => Ok(next),
        Err(e) => Err(e@),
    }
}

/// Reads the answer to a probe. The list starts with [`Prerequisite::Git`].
pub fn check_prerequisites(looked_for: Prerequisite, outcome: &Outcome) -> (r: Result<Option<Prerequisite>, Error>)
    ensures
        verdict_model(r) == looked_for.verdict(outcome@),
{
    let succeeded = match outcome {
        Outcome::NotStarted { .. } => false,
        Outcome::Exited { success, .. } => *success,
    };
    match looked_for {
        Prerequisite::Git => if succeeded {
            Ok(Some(Prerequisite::GitHubCli))
        } else {
            Err(Error::new("git is not installed or not in PATH".to_owned()))
        },
        Prerequisite::GitHubCli => if succeeded {
            Ok(Some(Prerequisite::GitHubLogin))
        } else {
            Err(Error::new("gh is not installed or not in PATH".to_owned()))
        },
        Prerequisite::GitHubLogin => if let Outcome::NotStarted { cause } = outcome {
            Err(Error::caused_by("Failed to check gh auth".to_owned(), cause.clone()))
        } else if succeeded {
            Ok(None)
        } else {
            Err(Error::new("gh is not authenticated. Run `gh auth login` first.".to_owned()))
        },
    }
}

/// A run succeeds in starting only with all three answers in order, and only if each was a success.
pub proof fn lemma_prerequisites_are_all_needed(git: OutcomeModel, cli: OutcomeModel, login: OutcomeModel)
    ensures
        (Prerequisite::Git.verdict(git) == Ok::<_, ErrorModel>(Some(Prerequisite::GitHubCli))
            && Prerequisite::GitHubCli.verdict(cli) == Ok::<_, ErrorModel>(Some(Prerequisite::GitHubLogin))
            && Prerequisite::GitHubLogin.verdict(login) == Ok::<Option<Prerequisite>, ErrorModel>(None))
            <==> (git.succeeded() && cli.succeeded() && login.succeeded()),
{
}

/// A directory can be scanned where it is there.
pub open spec fn directory_answer(dir: Seq<char>, is_dir: bool) -> Result<(), ErrorModel> {
    if is_dir {
        Ok(())
    } else {
        Err(ErrorModel::plain("Directory does not exist: "@ + dir))
    }
}

/// Refuses a scanned directory that is not there.
pub fn check_directory(dir: &str, is_dir: bool) -> (r: Result<(), Error>)
    ensures
        done_model(r) == directory_answer(dir@, is_dir),
{
    if is_dir {
        Ok(())
    } else {
        let mut text = "Directory does not exist: ".to_owned();
        text.append(dir);
        Err(Error::new(text))
    }
}

proof fn lemma_remote_path(owner: Seq<char>, repo: Seq<char>)
    requires
        owner.len() > 0,
        forall|i: int| 0 <= i < owner.len() ==> owner[i] != '/',
        repo.len() > 0,
        !text::has_suffix(repo, ".git"@),
    ensures
        owner_repo(full_name(owner, repo)) == Some((owner, repo)),
        owner_repo(full_name(owner, repo) + ".git"@) == Some((owner, repo)),
{
    let path = full_name(owner, repo);
    let n = path.len() as int;
    reveal_strlit("/");
    reveal_strlit(".git");
    if text::has_suffix(path, ".git"@) {
        let end = path.subrange(n - 4, n);
        if repo.len() >= 4 {
            assert(end =~= repo.subrange(repo.len() - 4, repo.len() as int));
        } else {
            assert(path[owner.len() as int] == '/');
            assert(end[owner.len() - (n - 4)] == '/');
        }
    }
    assert(text::without_suffixes(path, ".git"@) == path);
    let tagged = path + ".git"@;
    assert(tagged.subrange(tagged.len() - 4, tagged.len() as int) =~= ".git"@);
    assert(tagged.subrange(0, tagged.len() - 4) =~= path);
    assert(text::without_suffixes(tagged, ".git"@) == path);
    text::lemma_first_at(path, '/', owner.len() as int);
    assert(path.subrange(0, owner.len() as int) =~= owner);
    assert(text::after(path, owner.len() as int + 1) =~= repo);
}

/// The HTTPS and the SSH form of a remote, each with or without `.git`, name the same repository.
pub proof fn lemma_remote_forms_agree(owner: Seq<char>, repo: Seq<char>)
    requires
        owner.len() > 0,
        forall|i: int| 0 <= i < owner.len() ==> owner[i] != '/',
        repo.len() > 0,
        !text::has_suffix(repo, ".git"@),
    ensures
        remote_owner_repo("https://github.com/"@ + full_name(owner, repo)) == Ok::<_, ErrorModel>((owner, repo)),
        remote_owner_repo("https://github.com/"@ + (full_name(owner, repo) + ".git"@)) == Ok::<_, ErrorModel>(
            (owner, repo),
        ),
        remote_owner_repo("git@github.com:"@ + full_name(owner, repo)) == Ok::<_, ErrorModel>((owner, repo)),
        remote_owner_repo("git@github.com:"@ + (full_name(owner, repo) + ".git"@)) == Ok::<_, ErrorModel>((owner, repo)),
{
    lemma_remote_path(owner, repo);
    lemma_host_part("https://github.com/"@, full_name(owner, repo));
    lemma_host_part("https://github.com/"@, full_name(owner, repo) + ".git"@);
    lemma_host_part("git@github.com:"@, full_name(owner, repo));
    lemma_host_part("git@github.com:"@, full_name(owner, repo) + ".git"@);
}

proof fn lemma_host_part(host: Seq<char>, part: Seq<char>)
    requires
        host == "https://github.com/"@ || host == "git@github.com:"@,
        owner_repo(part) is Some,
    ensures
        remote_owner_repo(host + part) == Ok::<_, ErrorModel>(owner_repo(part)->0),
{
    let url = host + part;
    reveal_strlit("https://github.com/");
    reveal_strlit("git@github.com:");
    assert(url.subrange(0, host.len() as int) =~= host);
    assert(text::after(url, host.len() as int) =~= part);
    if host == "git@github.com:"@ && text::has_prefix(url, "https://github.com/"@) {
        assert(url.subrange(0, "https://github.com/"@.len() as int)[0] == url[0]);
    }
}

/// A worktree as git lists it: its path, its commit and its branch, where it has them, and what
/// else is said of it, such as that it is bare, detached or locked.
pub struct ListedModel {
    pub path: Seq<char>,
    pub head: Option<Seq<char>>,
    pub branch: Option<Seq<char>>,
    pub notes: Seq<Seq<char>>,
}

/// The line `field` with its value, where there is one.
pub open spec fn field_line(field: Seq<char>, value: Option<Seq<char>>) -> Seq<Seq<char>> {
    match value {
        Some(value) => seq![field + value],
        None => Seq::empty(),
    }
}

/// A line that tells neither the path nor the branch of a worktree.
pub open spec fn is_note(line: Seq<char>) -> bool {
    &&& text::is_line(line)
    &&& line.len() > 0
    &&& !text::has_prefix(line, "worktree "@)
    &&& !text::has_prefix(line, "branch refs/heads/"@)
}

impl ListedModel {
    /// The lines that git writes about the worktree, without the empty one behind them.
    pub open spec fn told(self) -> Seq<Seq<char>> {
        seq!["worktree "@ + self.path] + field_line("HEAD "@, self.head) + field_line(
            "branch refs/heads/"@,
            self.branch,
        ) + self.notes
    }

    /// The lines that git writes about the worktree.
    pub open spec fn block(self) -> Seq<Seq<char>> {
        self.told().push(""@)
    }

    /// The texts of the worktree stay on their lines.
    pub open spec fn is_writable(self) -> bool {
        &&& text::is_line(self.path)
        &&& self.head matches Some(head) ==> text::is_line(head)
        &&& self.branch matches Some(branch) ==> text::is_line(branch)
        &&& forall|i: int| 0 <= i < self.notes.len() ==> is_note(#[trigger] self.notes[i])
    }

    /// What is read of it.
    pub open spec fn entry(self, main_repo: Seq<char>) -> WorktreeModel {
        WorktreeModel {
            path: self.path,
            branch: self.branch,
            is_main: paths::same_place(self.path, main_repo),
        }
    }
}

/// The lines that git writes about worktrees.
pub open spec fn blocks(ws: Seq<ListedModel>) -> Seq<Seq<char>>
    decreases ws.len(),
{
    if ws.len() == 0 {
        Seq::empty()
    } else {
        ws[0].block() + blocks(ws.drop_first())
    }
}

/// What is read of worktrees.
pub open spec fn listed_entries(ws: Seq<ListedModel>, main_repo: Seq<char>) -> Seq<WorktreeModel> {
    Seq::new(ws.len(), |i: int| ws[i].entry(main_repo))
}

/// Lines without a field do not change what is read of it.
proof fn lemma_last_field_skips(block: Seq<Seq<char>>, more: Seq<Seq<char>>, field: Seq<char>)
    requires
        forall|i: int| 0 <= i < more.len() ==> !text::has_prefix(#[trigger] more[i], field),
    ensures
        last_field(block + more, field) == last_field(block, field),
    decreases more.len(),
{
    if more.len() == 0 {
        assert(block + more =~= block);
    } else {
        let whole = block + more;
        assert(whole.last() == more[more.len() - 1]);
        assert(whole.drop_last() =~= block + more.drop_last());
        lemma_last_field_skips(block, more.drop_last(), field);
    }
}

proof fn lemma_field_is_last(block: Seq<Seq<char>>, field: Seq<char>, value: Seq<char>)
    ensures
        last_field(block + seq![field + value], field) == Some(value),
{
    let line = field + value;
    assert((block + seq![line]).last() == line);
    assert(line.subrange(0, field.len() as int) =~= field);
    assert(text::after(line, field.len() as int) =~= value);
}

proof fn lemma_block_is_read(w: ListedModel, main_repo: Seq<char>)
    requires
        w.is_writable(),
    ensures
        block_entry(w.told(), main_repo) == seq![w.entry(main_repo)],
{
    let top = seq!["worktree "@ + w.path];
    let head = field_line("HEAD "@, w.head);
    let branch = field_line("branch refs/heads/"@, w.branch);
    let none = Seq::<Seq<char>>::empty();
    reveal_strlit("worktree ");
    reveal_strlit("HEAD ");
    reveal_strlit("branch refs/heads/");
    lemma_line_starts(top[0]);
    if head.len() > 0 {
        lemma_line_starts(head[0]);
    }
    if branch.len() > 0 {
        lemma_line_starts(branch[0]);
    }
    assert(none + top =~= top);
    lemma_field_is_last(none, "worktree "@, w.path);
    lemma_last_field_skips(top, head, "worktree "@);
    lemma_last_field_skips(top + head, branch, "worktree "@);
    lemma_last_field_skips(top + head + branch, w.notes, "worktree "@);
    lemma_last_field_skips(none, top, "branch refs/heads/"@);
    lemma_last_field_skips(top, head, "branch refs/heads/"@);
    match w.branch {
        Some(name) => lemma_field_is_last(top + head, "branch refs/heads/"@, name),
        None => lemma_last_field_skips(top + head, branch, "branch refs/heads/"@),
    }
    lemma_last_field_skips(top + head + branch, w.notes, "branch refs/heads/"@);
}

proof fn lemma_line_starts(line: Seq<char>)
    requires
        line.len() > 0,
    ensures
        text::has_prefix(line, "worktree "@) ==> line[0] == 'w',
        text::has_prefix(line, "branch refs/heads/"@) ==> line[0] == 'b',
{
    reveal_strlit("worktree ");
    reveal_strlit("branch refs/heads/");
    if text::has_prefix(line, "worktree "@) {
        assert(line.subrange(0, 9)[0] == line[0]);
    }
    if text::has_prefix(line, "branch refs/heads/"@) {
        assert(line.subrange(0, 18)[0] == line[0]);
    }
}

/// What is told of a worktree are lines with something on them.
proof fn lemma_told_lines(w: ListedModel)
    requires
        w.is_writable(),
    ensures
        forall|i: int| 0 <= i < w.told().len() ==> text::is_line(#[trigger] w.told()[i]) && w.told()[i].len() > 0,
{
    let top = seq!["worktree "@ + w.path];
    let head = field_line("HEAD "@, w.head);
    let branch = field_line("branch refs/heads/"@, w.branch);
    reveal_strlit("worktree ");
    reveal_strlit("HEAD ");
    reveal_strlit("branch refs/heads/");
    lemma_prefixed_line("worktree "@, w.path);
    if w.head is Some {
        lemma_prefixed_line("HEAD "@, w.head->0);
    }
    if w.branch is Some {
        lemma_prefixed_line("branch refs/heads/"@, w.branch->0);
    }
    assert forall|i: int| 0 <= i < w.told().len() implies text::is_line(#[trigger] w.told()[i]) && w.told()[i].len()
        > 0 by {
        if i < 1 {
            assert(w.told()[i] == top[i]);
        } else if i < 1 + head.len() {
            assert(w.told()[i] == head[i - 1]);
        } else if i < 1 + head.len() + branch.len() {
            assert(w.told()[i] == branch[i - 1 - head.len()]);
        } else {
            let k = i - 1 - head.len() - branch.len();
            assert(w.told()[i] == w.notes[k]);
            assert(is_note(w.notes[k]));
        }
    }
}

#[verifier::rlimit(40)]
proof fn lemma_blocks_are_read(ws: Seq<ListedModel>, main_repo: Seq<char>)
    requires
        forall|i: int| 0 <= i < ws.len() ==> (#[trigger] ws[i]).is_writable(),
    ensures
        block_entries(blocks(ws), main_repo) == listed_entries(ws, main_repo),
        forall|i: int| 0 <= i < blocks(ws).len() ==> text::is_line(#[trigger] blocks(ws)[i]),
    decreases ws.len(),
{
    let ls = blocks(ws);
    if ws.len() == 0 {
        assert(block_entries(ls, main_repo) =~= listed_entries(ws, main_repo));
    } else {
        let rest = ws.drop_first();
        let told = ws[0].told();
        let n = told.len() as int;
        reveal_strlit("");
        assert(ws[0].is_writable());
        assert forall|i: int| 0 <= i < rest.len() implies (#[trigger] rest[i]).is_writable() by {
            assert(rest[i] == ws[i + 1]);
        }
        lemma_blocks_are_read(rest, main_repo);
        lemma_block_is_read(ws[0], main_repo);
        lemma_told_lines(ws[0]);
        assert(ls =~= told + seq![""@] + blocks(rest));
        assert forall|i: int| 0 <= i < n implies (#[trigger] ls[i]).len() > 0 by {
            assert(ls[i] == told[i]);
        }
        assert(ls[n] == ""@);
        lemma_first_empty(ls, n);
        assert(ls.subrange(0, n) =~= told);
        assert(ls.subrange(n + 1, ls.len() as int) =~= blocks(rest));
        assert(block_entries(ls, main_repo) == block_entry(told, main_repo) + block_entries(blocks(rest), main_repo));
        assert(listed_entries(ws, main_repo) =~= seq![ws[0].entry(main_repo)] + listed_entries(rest, main_repo));
        assert forall|i: int| 0 <= i < ls.len() implies text::is_line(#[trigger] ls[i]) by {
            if i < n {
                assert(ls[i] == told[i]);
            } else if i > n {
                assert(ls[i] == blocks(rest)[i - n - 1]);
            }
        }
    }
}

proof fn lemma_prefixed_line(prefix: Seq<char>, value: Seq<char>)
    requires
        text::is_line(prefix),
        text::is_line(value),
    ensures
        text::is_line(prefix + value),
{
    let line = prefix + value;
    assert forall|i: int| 0 <= i < line.len() implies line[i] != '\n' by {
        if i < prefix.len() {
            assert(line[i] == prefix[i]);
        } else {
            assert(line[i] == value[i - prefix.len()]);
        }
    }
    if value.len() > 0 {
        assert(line.last() == value.last());
    } else if prefix.len() > 0 {
        assert(line.last() == prefix.last());
    }
}

/// Every worktree that git lists is read, in order, with its path and its branch, whatever else is
/// said of it, and the one at the place of the repository is known as the main one.
pub proof fn lemma_listing_is_read(ws: Seq<ListedModel>, main_repo: Seq<char>)
    requires
        forall|i: int| 0 <= i < ws.len() ==> (#[trigger] ws[i]).is_writable(),
    ensures
        block_entries(text::lines(text::unlines(blocks(ws))), main_repo) == listed_entries(ws, main_repo),
{
    lemma_blocks_are_read(ws, main_repo);
    text::lemma_lines_of_unlines(blocks(ws));
}

} // verus!
