//! The history of runs, read back from the log.
use crate::cli::HistoryLast;
use crate::logging::{LogRecord, RecordModel};
use crate::names;
use crate::text;
use vstd::prelude::*;

verus! {

impl RecordModel {
    /// The word for what happened.
    pub open spec fn action_name(self) -> Seq<char> {
        match self {
            RecordModel::Removed { .. } => "removed"@,
            RecordModel::Skipped { .. } => "skipped"@,
            RecordModel::Error { .. } => "error"@,
            RecordModel::Summary { .. } => "summary"@,
        }
    }

    /// The repository it happened in. A summary is about all of them.
    pub open spec fn repo_name(self) -> Option<Seq<char>> {
        match self {
            RecordModel::Removed { repo, .. } => Some(repo),
            RecordModel::Skipped { repo, .. } => Some(repo),
            RecordModel::Error { repo, .. } => Some(repo),
            RecordModel::Summary { .. } => None,
        }
    }

    /// The record has the wanted action, and its repository, where it has one, has the wanted part
    /// in its name.
    pub open spec fn wanted(self, action: Option<Seq<char>>, repo: Option<Seq<char>>) -> bool {
        &&& action matches Some(name) ==> self.action_name() == name
        &&& repo matches Some(part) ==> self.repo_name() matches Some(name) ==> text::contains(name, part)
    }

    /// The record as a line of the history.
    pub open spec fn line(self) -> Seq<char> {
        match self {
            RecordModel::Summary {
                timestamp,
                scanned_repos,
                scanned_worktrees,
                removed_count,
                skipped_count,
                error_count,
                dry_run,
            } => "  \x1b[1;36m"@ + timestamp + "\x1b[0m  \x1b[1m📊 SUMMARY"@ + if dry_run {
                " (dry-run)"@
            } else {
                ""@
            } + "\x1b[0m  repos:"@ + text::decimal(scanned_repos as nat) + "  worktrees:"@ + text::decimal(
                scanned_worktrees as nat,
            ) + "  \x1b[32mremoved:"@ + text::decimal(removed_count as nat) + "\x1b[0m  skipped:"@ + text::decimal(
                skipped_count as nat,
            ) + "  \x1b[31merrors:"@ + text::decimal(error_count as nat) + "\x1b[0m"@,
            RecordModel::Removed { timestamp, repo, branch, pr_number, pr_url, .. } => "  \x1b[1;36m"@ + timestamp
                + "\x1b[0m  \x1b[32m🗑  REMOVED\x1b[0m  "@ + repo + "  branch:"@ + branch + "  PR #"@ + text::decimal(
                pr_number as nat,
            ) + " "@ + pr_url,
            RecordModel::Skipped { timestamp, repo, branch, reason, .. } => "  \x1b[1;36m"@ + timestamp
                + "\x1b[0m  \x1b[33m⏭  SKIPPED\x1b[0m  "@ + repo + "  branch:"@ + branch + "  reason:"@ + reason,
            RecordModel::Error { timestamp, repo, branch, error, .. } => "  \x1b[1;36m"@ + timestamp
                + "\x1b[0m  \x1b[31m❌ ERROR\x1b[0m    "@ + repo + "  branch:"@ + (match branch {
                Some(branch) => branch,
                None => "-"@,
            }) + "  "@ + error,
        }
    }
}

/// The test for wanted records.
pub open spec fn is_wanted(action: Option<Seq<char>>, repo: Option<Seq<char>>) -> spec_fn(RecordModel) -> bool {
    |r: RecordModel| r.wanted(action, repo)
}

/// The test for summaries of runs.
pub open spec fn is_summary() -> spec_fn(RecordModel) -> bool {
    |r: RecordModel| r is Summary
}

/// The test for removals.
pub open spec fn is_removal() -> spec_fn(RecordModel) -> bool {
    |r: RecordModel| r is Removed
}

/// The test for errors.
pub open spec fn is_error() -> spec_fn(RecordModel) -> bool {
    |r: RecordModel| r is Error
}

/// The records of a log. A line that holds no record is passed over.
pub open spec fn readable(lines: Seq<Option<RecordModel>>) -> Seq<RecordModel>
    decreases lines.len(),
{
    if lines.len() == 0 {
        Seq::empty()
    } else {
        match lines.last() {
            Some(record) => readable(lines.drop_last()).push(record),
            None => readable(lines.drop_last()),
        }
    }
}

/// The last so many records.
pub open spec fn latest(records: Seq<RecordModel>, last: HistoryLast) -> Seq<RecordModel> {
    match last {
        HistoryLast::Count(n) => if n < records.len() {
            records.skip(records.len() - n)
        } else {
            records
        },
        HistoryLast::All => records,
    }
}

/// The lines of records.
pub open spec fn record_lines(records: Seq<RecordModel>) -> Seq<Seq<char>> {
    records.map_values(|r: RecordModel| r.line())
}

/// The line above the history, and the one below it.
pub open spec fn heading(shown: nat, found: nat, log_file: Seq<char>) -> Seq<char> {
    "Showing "@ + text::decimal(shown) + " of "@ + text::decimal(found) + " records (from "@ + log_file + ")"@
}

pub open spec fn footing(shown: Seq<RecordModel>) -> Seq<char> {
    "  Shown: "@ + text::decimal(shown.filter(is_summary()).len()) + " runs, "@ + text::decimal(
        shown.filter(is_removal()).len(),
    ) + " removals, "@ + text::decimal(shown.filter(is_error()).len()) + " errors"@
}

/// What is printed of a log, where there is one: `lines` says of each line what record it holds.
pub open spec fn history(
    log_file: Seq<char>,
    lines: Option<Seq<Option<RecordModel>>>,
    last: HistoryLast,
    action: Option<Seq<char>>,
    repo: Option<Seq<char>>,
) -> Seq<Seq<char>> {
    match lines {
        None => seq![
            "No history found (log file does not exist: "@ + log_file + ")"@,
            "Run `worktree-gc` or `worktree-gc --dry-run` to generate logs."@,
        ],
        Some(lines) => {
            let records = readable(lines).filter(is_wanted(action, repo));
            let shown = latest(records, last);
            if records.len() == 0 {
                seq!["No matching records found."@]
            } else {
                seq![heading(shown.len(), records.len(), log_file), ""@] + record_lines(shown) + seq![
                    ""@,
                    footing(shown),
                ]
            }
        },
    }
}

impl LogRecord {
    fn action_name(&self) -> (r: &'static str)
        ensures
            r@ == self@.action_name(),
    {
        match self {
            LogRecord::Removed { .. } => "removed",
            LogRecord::Skipped { .. } => "skipped",
            LogRecord::Error { .. } => "error",
            LogRecord::Summary { .. } => "summary",
        }
    }

    /// Whether the record has the wanted action and repository.
    pub fn matches_filters(&self, action: Option<&str>, repo: Option<&str>) -> (r: bool)
        ensures
            r == self@.wanted(action.deep_view(), repo.deep_view()),
    {
        if let Some(wanted) = action {
            if !text::same(self.action_name(), wanted) {
                return false;
            }
        }
        if let Some(part) = repo {
            let name: &str = match self {
                LogRecord::Removed { repo, .. } => repo.as_str(),
                LogRecord::Skipped { repo, .. } => repo.as_str(),
                LogRecord::Error { repo, .. } => repo.as_str(),
                LogRecord::Summary { .. } => return true,
            };
            if !text::includes(name, part) {
                return false;
            }
        }
        true
    }

    /// The record as a line of the history.
    pub fn history_line(&self) -> (r: String)
        ensures
            r@ == self@.line(),
    {
        let mut line = "  \x1b[1;36m".to_owned();
        match self {
            LogRecord::Summary {
                timestamp,
                scanned_repos,
                scanned_worktrees,
                removed_count,
                skipped_count,
                error_count,
                dry_run,
            } => {
                line.append(timestamp.as_str());
                line.append("\x1b[0m  \x1b[1m📊 SUMMARY");
                line.append(if *dry_run { " (dry-run)" } else { "" });
                line.append("\x1b[0m  repos:");
                line.append(text::decimal_text(*scanned_repos as u128).as_str());
                line.append("  worktrees:");
                line.append(text::decimal_text(*scanned_worktrees as u128).as_str());
                line.append("  \x1b[32mremoved:");
                line.append(text::decimal_text(*removed_count as u128).as_str());
                line.append("\x1b[0m  skipped:");
                line.append(text::decimal_text(*skipped_count as u128).as_str());
                line.append("  \x1b[31merrors:");
                line.append(text::decimal_text(*error_count as u128).as_str());
                line.append("\x1b[0m");
            },
            LogRecord::Removed { timestamp, repo, branch, pr_number, pr_url, .. } => {
                line.append(timestamp.as_str());
                line.append("\x1b[0m  \x1b[32m🗑  REMOVED\x1b[0m  ");
                line.append(repo.as_str());
                line.append("  branch:");
                line.append(branch.as_str());
                line.append("  PR #");
                line.append(text::decimal_text(*pr_number as u128).as_str());
                line.append(" ");
                line.append(pr_url.as_str());
            },
            LogRecord::Skipped { timestamp, repo, branch, reason, .. } => {
                line.append(timestamp.as_str());
                line.append("\x1b[0m  \x1b[33m⏭  SKIPPED\x1b[0m  ");
                line.append(repo.as_str());
                line.append("  branch:");
                line.append(branch.as_str());
                line.append("  reason:");
                line.append(reason.as_str());
            },
            LogRecord::Error { timestamp, repo, branch, error, .. } => {
                line.append(timestamp.as_str());
                line.append("\x1b[0m  \x1b[31m❌ ERROR\x1b[0m    ");
                line.append(repo.as_str());
                line.append("  branch:");
                match branch {
                    Some(branch) => line.append(branch.as_str()),
                    None => line.append("-"),
                }
                line.append("  ");
                line.append(error.as_str());
            },
        }
        line
    }
}

/// The wanted records of a log.
fn wanted_records(lines: Vec<Option<LogRecord>>, action: Option<&str>, repo: Option<&str>) -> (r: Vec<LogRecord>)
    ensures
        r.deep_view() == readable(lines.deep_view()).filter(is_wanted(action.deep_view(), repo.deep_view())),
{
    let ghost models = lines.deep_view();
    let ghost items = lines@;
    let ghost p = is_wanted(action.deep_view(), repo.deep_view());
    let mut records: Vec<LogRecord> = Vec::new();
    proof {
        reveal(Seq::filter);
        assert(readable(models.subrange(0, 0)) =~= Seq::empty());
        assert(records.deep_view() =~= readable(models.subrange(0, 0)).filter(p));
    }
    for line in it: lines
        invariant
            it.seq() == items,
            models.len() == items.len(),
            forall|i: int| 0 <= i < items.len() ==> models[i] == (#[trigger] items[i]).deep_view(),
            p == is_wanted(action.deep_view(), repo.deep_view()),
            records.deep_view() == readable(models.subrange(0, it.index())).filter(p),
    {
        proof {
            let now = models.subrange(0, it.index() + 1);
            let seen = readable(models.subrange(0, it.index()));
            assert(now.drop_last() =~= models.subrange(0, it.index()));
            assert(now.last() == line.deep_view());
            if line is Some {
                let more = seen.push(line->0@);
                names::lemma_filter_step(more, p, seen.len() as int);
                assert(more.subrange(0, seen.len() as int) =~= seen);
                assert(more.subrange(0, more.len() as int) =~= more);
            }
        }
        if let Some(record) = line {
            if record.matches_filters(action, repo) {
                names::put(&mut records, record);
            }
        }
    }
    assert(models.subrange(0, models.len() as int) =~= models);
    records
}

/// How many of the records from `start` on are summaries, removals and errors.
fn counts(records: &Vec<LogRecord>, start: usize) -> (r: (usize, usize, usize))
    requires
        start <= records.len(),
    ensures
        ({
            let shown = records.deep_view().skip(start as int);
            &&& r.0 == shown.filter(is_summary()).len()
            &&& r.1 == shown.filter(is_removal()).len()
            &&& r.2 == shown.filter(is_error()).len()
        }),
{
    let ghost shown = records.deep_view().skip(start as int);
    let mut runs: usize = 0;
    let mut removals: usize = 0;
    let mut errors: usize = 0;
    let mut i: usize = start;
    proof {
        reveal(Seq::filter);
        assert(shown.subrange(0, 0) =~= Seq::empty());
    }
    while i < records.len()
        invariant
            start <= i <= records.len(),
            shown == records.deep_view().skip(start as int),
            runs == shown.subrange(0, i - start).filter(is_summary()).len(),
            removals == shown.subrange(0, i - start).filter(is_removal()).len(),
            errors == shown.subrange(0, i - start).filter(is_error()).len(),
            runs <= i,
            removals <= i,
            errors <= i,
        decreases records.len() - i,
    {
        proof {
            assert(shown[i - start] == records@[i as int]@);
            names::lemma_filter_step(shown, is_summary(), i - start);
            names::lemma_filter_step(shown, is_removal(), i - start);
            names::lemma_filter_step(shown, is_error(), i - start);
        }
        match &records[i] {
            LogRecord::Summary { .. } => {
                runs = runs + 1;
            },
            LogRecord::Removed { .. } => {
                removals = removals + 1;
            },
            LogRecord::Error { .. } => {
                errors = errors + 1;
            },
            LogRecord::Skipped { .. } => {},
        }
        i = i + 1;
    }
    assert(shown.subrange(0, shown.len() as int) =~= shown);
    (runs, removals, errors)
}

/// What is printed of a log. `lines` says of each line of the log file what record it holds, or is
/// nothing where there is no such file.
pub fn show_history(
    log_file: &str,
    lines: Option<Vec<Option<LogRecord>>>,
    last: HistoryLast,
    action_filter: Option<&str>,
    repo_filter: Option<&str>,
) -> (r: Vec<String>)
    ensures
        r.deep_view() == history(
            log_file@,
            lines.deep_view(),
            last,
            action_filter.deep_view(),
            repo_filter.deep_view(),
        ),
{
    let mut out: Vec<String> = Vec::new();
    let lines = match lines {
        Some(lines) => lines,
        None => {
            let mut text = "No history found (log file does not exist: ".to_owned();
            text.append(log_file);
            text.append(")");
            names::put(&mut out, text);
            names::put(&mut out, "Run `worktree-gc` or `worktree-gc --dry-run` to generate logs.".to_owned());
            return out;
        },
    };
    let records = wanted_records(lines, action_filter, repo_filter);
    let found: usize = records.len();
    let ghost models = records.deep_view();
    if found == 0 {
        names::put(&mut out, "No matching records found.".to_owned());
        return out;
    }
    let start: usize = match last {
        HistoryLast::Count(count) => if count < found { found - count } else { 0 },
        HistoryLast::All => 0,
    };
    let ghost shown = models.skip(start as int);
    assert(shown =~= latest(models, last));
    let mut head = "Showing ".to_owned();
    head.append(text::decimal_text((found - start) as u128).as_str());
    head.append(" of ");
    head.append(text::decimal_text(found as u128).as_str());
    head.append(" records (from ");
    head.append(log_file);
    head.append(")");
    names::put(&mut out, head);
    names::put(&mut out, "".to_owned());
    let ghost top = seq![heading(shown.len(), models.len(), log_file@), ""@];
    let mut i: usize = start;
    proof {
        assert(out.deep_view() =~= top);
        assert(top + record_lines(shown.subrange(0, 0)) =~= top);
    }
    while i < found
        invariant
            found == records.len(),
            start <= i <= found,
            models == records.deep_view(),
            shown == models.skip(start as int),
            out.deep_view() == top + record_lines(shown.subrange(0, i - start)),
        decreases found - i,
    {
        names::put(&mut out, records[i].history_line());
        proof {
            assert(shown[i - start] == records@[i as int]@);
            assert(out.deep_view() =~= top + record_lines(shown.subrange(0, i + 1 - start)));
        }
        i = i + 1;
    }
    assert(shown.subrange(0, shown.len() as int) =~= shown);
    let (runs, removals, errors) = counts(&records, start);
    let mut foot = "  Shown: ".to_owned();
    foot.append(text::decimal_text(runs as u128).as_str());
    foot.append(" runs, ");
    foot.append(text::decimal_text(removals as u128).as_str());
    foot.append(" removals, ");
    foot.append(text::decimal_text(errors as u128).as_str());
    foot.append(" errors");
    names::put(&mut out, "".to_owned());
    names::put(&mut out, foot);
    assert(out.deep_view() =~= top + record_lines(shown) + seq![""@, footing(shown)]);
    out
}

/// The records shown are the last of the wanted ones, as many as were asked for and there are.
pub proof fn lemma_history_shows_the_latest(records: Seq<RecordModel>, last: HistoryLast)
    ensures
        ({
            let shown = latest(records, last);
            &&& shown.len() <= records.len()
            &&& shown == records.skip(records.len() - shown.len())
            &&& last matches HistoryLast::Count(n) ==> shown.len() == if n < records.len() { n as int } else { records.len() as int }
            &&& last is All ==> shown == records
        }),
{
    assert(records.skip(0) =~= records);
}

/// Each record shown stands in the log and is wanted, and each wanted record of the log is among
/// those that are shown when all are asked for.
pub proof fn lemma_history_shows_what_is_wanted(
    lines: Seq<Option<RecordModel>>,
    last: HistoryLast,
    action: Option<Seq<char>>,
    repo: Option<Seq<char>>,
    record: RecordModel,
)
    ensures
        latest(readable(lines).filter(is_wanted(action, repo)), last).contains(record) ==> lines.contains(Some(record))
            && record.wanted(action, repo),
        lines.contains(Some(record)) && record.wanted(action, repo) ==> latest(
            readable(lines).filter(is_wanted(action, repo)),
            HistoryLast::All,
        ).contains(record),
{
    let p = is_wanted(action, repo);
    let all = readable(lines);
    let records = all.filter(p);
    let shown = latest(records, last);
    lemma_readable_contains(lines, record);
    if shown.contains(record) {
        let i = choose|i: int| 0 <= i < shown.len() && shown[i] == record;
        lemma_history_shows_the_latest(records, last);
        assert(records[records.len() - shown.len() + i] == record);
        names::lemma_filter_from(all, p, record);
    }
    if lines.contains(Some(record)) && record.wanted(action, repo) {
        let i = choose|i: int| 0 <= i < all.len() && all[i] == record;
        all.lemma_filter_contains(p, i);
    }
}

proof fn lemma_readable_contains(lines: Seq<Option<RecordModel>>, record: RecordModel)
    ensures
        readable(lines).contains(record) <==> lines.contains(Some(record)),
    decreases lines.len(),
{
    if lines.len() > 0 {
        let rest = lines.drop_last();
        lemma_readable_contains(rest, record);
        let all = readable(lines);
        if all.contains(record) {
            if readable(rest).contains(record) {
                let k = choose|k: int| 0 <= k < rest.len() && rest[k] == Some(record);
                assert(lines[k] == Some(record));
            } else {
                let k = choose|k: int| 0 <= k < all.len() && all[k] == record;
                if k < readable(rest).len() {
                    assert(readable(rest)[k] == record);
                }
                assert(lines.last() == Some(record));
            }
        }
        if lines.contains(Some(record)) {
            let k = choose|k: int| 0 <= k < lines.len() && lines[k] == Some(record);
            if k < rest.len() {
                assert(rest[k] == Some(record));
                let j = choose|j: int| 0 <= j < readable(rest).len() && readable(rest)[j] == record;
                assert(all[j] == record);
            } else {
                assert(all[readable(rest).len() as int] == record);
            }
        }
    }
}

} // verus!
