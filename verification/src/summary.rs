//! The end of a run: what is told and what is recorded.
use crate::gc::RepoModel;
use crate::logging::{LogRecord, RecordModel};
use crate::names;
use crate::repo_run;
use crate::repo_run::{Answers, GcResult, Kind, ResultModel};
use crate::text;
use vstd::prelude::*;

verus! {

/// How urgent a line for the terminal is.
#[derive(Debug, Clone, Copy, PartialEq, Eq, Structural)]
pub enum Level {
    Info,
    Warning,
}

/// A line for the terminal.
#[derive(Debug)]
pub struct LogLine {
    pub level: Level,
    pub text: String,
}

/// What a [`LogLine`] says.
#[verifier::ext_equal]
pub struct LineModel {
    pub level: Level,
    pub text: Seq<char>,
}

impl View for LogLine {
    type V = LineModel;

    open spec fn view(&self) -> LineModel {
        LineModel { level: self.level, text: self.text@ }
    }
}

impl DeepView for LogLine {
    type V = LineModel;

    open spec fn deep_view(&self) -> LineModel {
        self@
    }
}

/// The record of a whole run that came to this result.
pub open spec fn summary_of(result: ResultModel, dry_run: bool, now: Seq<char>) -> RecordModel {
    RecordModel::Summary {
        timestamp: now,
        scanned_repos: result.scanned_repos as usize,
        scanned_worktrees: result.scanned_worktrees as usize,
        removed_count: result.removed.len() as usize,
        skipped_count: result.skipped.len() as usize,
        error_count: result.errors.len() as usize,
        dry_run,
    }
}

/// The record of a whole run.
pub fn summary_record(result: &GcResult, dry_run: bool, now: String) -> (r: LogRecord)
    ensures
        r@ == summary_of(result@, dry_run, now@),
{
    LogRecord::Summary {
        timestamp: now,
        scanned_repos: result.scanned_repos,
        scanned_worktrees: result.scanned_worktrees,
        removed_count: result.removed.len(),
        skipped_count: result.skipped.len(),
        error_count: result.errors.len(),
        dry_run,
    }
}

pub open spec fn info(text: Seq<char>) -> LineModel {
    LineModel { level: Level::Info, text }
}

pub open spec fn warning(text: Seq<char>) -> LineModel {
    LineModel { level: Level::Warning, text }
}

/// One line for each item, set off by a dash.
pub open spec fn item_lines(items: Seq<Seq<char>>, level: Level) -> Seq<LineModel> {
    Seq::new(items.len(), |i: int| LineModel { level, text: "  - "@ + items[i] })
}

/// What is told at the end of a run: the counts, what was removed, and what went wrong.
pub open spec fn told(result: ResultModel, dry_run: bool) -> Seq<LineModel> {
    seq![
        info("--- Summary ---"@),
        info("Repos scanned: "@ + text::decimal(result.scanned_repos)),
        info("Worktrees checked: "@ + text::decimal(result.scanned_worktrees)),
        info("Removed: "@ + text::decimal(result.removed.len()) + " "@ + if dry_run { "(dry-run)"@ } else { ""@ }),
    ] + item_lines(result.removed, Level::Info) + if result.errors.len() == 0 {
        Seq::empty()
    } else {
        seq![warning("Errors: "@ + text::decimal(result.errors.len()))] + item_lines(result.errors, Level::Warning)
    }
}

fn counted_line(level: Level, label: &str, count: usize) -> (r: LogLine)
    ensures
        r@ == (LineModel { level, text: label@ + text::decimal(count as nat) }),
{
    let mut text = label.to_owned();
    text.append(text::decimal_text(count as u128).as_str());
    LogLine { level, text }
}

fn put_items(lines: &mut Vec<LogLine>, items: &Vec<String>, level: Level)
    ensures
        final(lines).deep_view() == old(lines).deep_view() + item_lines(items.deep_view(), level),
{
    let ghost before = lines.deep_view();
    let ghost all = items.deep_view();
    let mut i: usize = 0;
    assert(before + item_lines(all.subrange(0, 0), level) =~= before);
    while i < items.len()
        invariant
            i <= items.len(),
            all == items.deep_view(),
            lines.deep_view() == before + item_lines(all.subrange(0, i as int), level),
        decreases items.len() - i,
    {
        let mut text = "  - ".to_owned();
        text.append(items[i].as_str());
        names::put(lines, LogLine { level, text });
        proof {
            assert(all[i as int] == items@[i as int]@);
            assert(lines.deep_view() =~= before + item_lines(all.subrange(0, i + 1), level));
        }
        i = i + 1;
    }
    assert(all.subrange(0, items.len() as int) =~= all);
}

/// What is told at the end of a run.
pub fn summary_lines(result: &GcResult, dry_run: bool) -> (r: Vec<LogLine>)
    ensures
        r.deep_view() == told(result@, dry_run),
{
    let mut lines: Vec<LogLine> = Vec::new();
    assert(lines.deep_view() =~= Seq::empty());
    names::put(&mut lines, LogLine { level: Level::Info, text: "--- Summary ---".to_owned() });
    names::put(&mut lines, counted_line(Level::Info, "Repos scanned: ", result.scanned_repos));
    names::put(&mut lines, counted_line(Level::Info, "Worktrees checked: ", result.scanned_worktrees));
    let mut removed = counted_line(Level::Info, "Removed: ", result.removed.len());
    removed.text.append(" ");
    removed.text.append(if dry_run { "(dry-run)" } else { "" });
    names::put(&mut lines, removed);
    put_items(&mut lines, &result.removed, Level::Info);
    if result.errors.len() > 0 {
        names::put(&mut lines, counted_line(Level::Warning, "Errors: ", result.errors.len()));
        put_items(&mut lines, &result.errors, Level::Warning);
    }
    assert(lines.deep_view() =~= told(result@, dry_run));
    lines
}

/// What a run over these repositories writes to the log: the records of each of them in turn, and
/// the summary of what the run came to.
pub open spec fn run_log(repos: Seq<(RepoModel, Answers)>, dry_run: bool, now: Seq<char>) -> Seq<RecordModel> {
    repo_run::records_over(repos, dry_run).push(
        summary_of(repo_run::result_over(repos, dry_run, ResultModel::begun(repos.len())), dry_run, now),
    )
}

/// The log of a run ends with its one summary, which counts the repositories of the run and the
/// records of each kind before it.
pub proof fn lemma_log_ends_with_its_summary(repos: Seq<(RepoModel, Answers)>, dry_run: bool, now: Seq<char>)
    ensures
        ({
            let log = run_log(repos, dry_run, now);
            let records = log.drop_last();
            let end = repo_run::result_over(repos, dry_run, ResultModel::begun(repos.len()));
            &&& records == repo_run::records_over(repos, dry_run)
            &&& forall|i: int| 0 <= i < records.len() ==> (#[trigger] records[i]) !is Summary
            &&& log.last() == (RecordModel::Summary {
                timestamp: now,
                scanned_repos: repos.len() as usize,
                scanned_worktrees: end.scanned_worktrees as usize,
                removed_count: repo_run::count_of(records, Kind::Removed) as usize,
                skipped_count: repo_run::count_of(records, Kind::Skipped) as usize,
                error_count: repo_run::count_of(records, Kind::Failed) as usize,
                dry_run,
            })
        }),
{
    let begun = ResultModel::begun(repos.len());
    let end = repo_run::result_over(repos, dry_run, begun);
    let records = repo_run::records_over(repos, dry_run);
    repo_run::lemma_run_tallies_its_records(repos, dry_run, begun);
    assert(run_log(repos, dry_run, now).drop_last() =~= records);
    assert(repo_run::tallied(begun, end, records, Kind::Removed));
    assert(repo_run::tallied(begun, end, records, Kind::Skipped));
    assert(repo_run::tallied(begun, end, records, Kind::Failed));
}

} // verus!
