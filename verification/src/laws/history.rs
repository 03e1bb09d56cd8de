//! The history: which records are wanted, which of them are shown, and what is told of them.
use crate::cli::HistoryLast;
use crate::history;
use crate::laws::texts;
use crate::logging::RecordModel;
use crate::text;
use vstd::prelude::*;

verus! {

/// The record tells of a worktree of the repository.
pub open spec fn tells_of(record: RecordModel, name: Seq<char>) -> bool {
    match record {
        RecordModel::Removed { repo, .. } => repo == name,
        RecordModel::Skipped { repo, .. } => repo == name,
        RecordModel::Error { repo, .. } => repo == name,
        RecordModel::Summary { .. } => false,
    }
}

/// A record is wanted under a part of its repository's name, wherever in the name the part stands.
pub proof fn lemma_part_of_the_name_finds_the_record(
    record: RecordModel,
    a: Seq<char>,
    part: Seq<char>,
    b: Seq<char>,
)
    requires
        tells_of(record, a + part + b),
    ensures
        record.wanted(None, Some(part)),
{
    texts::lemma_text_holds_its_parts(a, part, b);
}

/// A record whose repository's name holds the part nowhere is not wanted.
pub proof fn lemma_other_names_are_not_found(record: RecordModel, name: Seq<char>, part: Seq<char>)
    requires
        tells_of(record, name),
        forall|i: int| 0 <= i <= name.len() - part.len() ==> #[trigger] name.subrange(i, i + part.len()) != part,
    ensures
        !record.wanted(None, Some(part)),
{
}

/// A record that is wanted under a part of a name is the summary of a run, or tells of a repository
/// whose name is something, the part, and something.
pub proof fn lemma_found_names_hold_the_part(record: RecordModel, part: Seq<char>)
    requires
        record.wanted(None, Some(part)),
    ensures
        record is Summary || exists|a: Seq<char>, b: Seq<char>| tells_of(record, #[trigger] (a + part + b)),
{
    match record {
        RecordModel::Removed { repo, .. } => texts::lemma_held_part_splits_text(repo, part),
        RecordModel::Skipped { repo, .. } => texts::lemma_held_part_splits_text(repo, part),
        RecordModel::Error { repo, .. } => texts::lemma_held_part_splits_text(repo, part),
        RecordModel::Summary { .. } => {},
    }
}

/// Without a filter every record is wanted; the summary of a run is wanted under every repository;
/// a record is wanted under the name of what it tells and under no other; and two filters want what
/// both of them want.
pub proof fn lemma_filters_are_the_names_of_actions(record: RecordModel, name: Seq<char>, part: Seq<char>)
    ensures
        record.wanted(None, None),
        record is Summary ==> record.wanted(None, Some(part)),
        record.wanted(Some(name), None) <==> {
            ||| record is Removed && name == "removed"@
            ||| record is Skipped && name == "skipped"@
            ||| record is Error && name == "error"@
            ||| record is Summary && name == "summary"@
        },
        record.wanted(Some(name), Some(part)) <==> record.wanted(Some(name), None) && record.wanted(None, Some(part)),
{
}

/// The lines of the log are read in turn: a readable one is its record, another one is nothing.
pub proof fn lemma_log_is_read_line_by_line(a: Seq<Option<RecordModel>>, b: Seq<Option<RecordModel>>, record: RecordModel)
    ensures
        history::readable(Seq::empty()) == Seq::<RecordModel>::empty(),
        history::readable(seq![Some(record)]) == seq![record],
        history::readable(seq![None]) == Seq::<RecordModel>::empty(),
        history::readable(a + b) == history::readable(a) + history::readable(b),
    decreases b.len(),
{
    reveal_with_fuel(history::readable, 2);
    assert(seq![Some(record)].drop_last() =~= Seq::<Option<RecordModel>>::empty());
    assert(seq![None::<RecordModel>].drop_last() =~= Seq::<Option<RecordModel>>::empty());
    assert(history::readable(seq![Some(record)]) =~= seq![record]);
    if b.len() == 0 {
        assert(a + b =~= a);
        assert(history::readable(a) + history::readable(b) =~= history::readable(a));
    } else {
        lemma_log_is_read_line_by_line(a, b.drop_last(), record);
        assert((a + b).drop_last() =~= a + b.drop_last());
        assert((a + b).last() == b.last());
        assert(history::readable(a + b) =~= history::readable(a) + history::readable(b));
    }
}

/// A line of the log that cannot be read, or whose record is not wanted, makes no difference.
pub proof fn lemma_unwanted_lines_make_no_difference(
    log_file: Seq<char>,
    before: Seq<Option<RecordModel>>,
    line: Option<RecordModel>,
    behind: Seq<Option<RecordModel>>,
    last: HistoryLast,
    action: Option<Seq<char>>,
    repo: Option<Seq<char>>,
)
    requires
        line matches Some(record) ==> !record.wanted(action, repo),
    ensures
        history::history(log_file, Some(before + seq![line] + behind), last, action, repo) == history::history(
            log_file,
            Some(before + behind),
            last,
            action,
            repo,
        ),
{
    let wanted = history::is_wanted(action, repo);
    let record = match line {
        Some(record) => record,
        None => RecordModel::Skipped { timestamp: ""@, repo: ""@, worktree: ""@, branch: ""@, reason: ""@ },
    };
    lemma_log_is_read_line_by_line(before + seq![line], behind, record);
    lemma_log_is_read_line_by_line(before, seq![line], record);
    lemma_log_is_read_line_by_line(before, behind, record);
    let (x, y) = (history::readable(before), history::readable(behind));
    let one = history::readable(seq![line]);
    assert(one.filter(wanted) =~= Seq::<RecordModel>::empty()) by {
        reveal(Seq::filter);
        reveal_with_fuel(Seq::filter, 2);
        if line is Some {
            assert(one =~= seq![record]);
            assert(one.drop_last() =~= Seq::<RecordModel>::empty());
        }
    }
    Seq::filter_distributes_over_add(x + one, y, wanted);
    Seq::filter_distributes_over_add(x, one, wanted);
    Seq::filter_distributes_over_add(x, y, wanted);
    assert(x.filter(wanted) + one.filter(wanted) =~= x.filter(wanted));
}

/// Where every line is a wanted record, the history tells how many it shows of how many and from
/// where, then the last of them, oldest first and one to a line, as many as were asked for, and then
/// how many runs, removals and errors it has shown.
pub proof fn lemma_history_ends_with_the_latest(
    log_file: Seq<char>,
    records: Seq<RecordModel>,
    last: HistoryLast,
    action: Option<Seq<char>>,
    repo: Option<Seq<char>>,
    shown: nat,
)
    requires
        records.len() > 0,
        forall|i: int| 0 <= i < records.len() ==> (#[trigger] records[i]).wanted(action, repo),
        shown <= records.len(),
        last matches HistoryLast::Count(n) ==> shown == n || shown == records.len() && shown < n,
        last is All ==> shown == records.len(),
    ensures
        ({
            let told = history::history(
                log_file,
                Some(Seq::new(records.len(), |i: int| Some(records[i]))),
                last,
                action,
                repo,
            );
            let first = records.len() - shown;
            &&& told.len() == shown + 4
            &&& told[0] == "Showing "@ + text::decimal(shown) + " of "@ + text::decimal(records.len())
                + " records (from "@ + log_file + ")"@
            &&& told[1] == ""@ && told[shown as int + 2] == ""@
            &&& forall|i: int| 0 <= i < shown ==> told[2 + i] == (#[trigger] records[first + i]).line()
            &&& told[shown as int + 3] == "  Shown: "@ + text::decimal(
                records.skip(first).filter(|r: RecordModel| r is Summary).len(),
            ) + " runs, "@ + text::decimal(records.skip(first).filter(|r: RecordModel| r is Removed).len())
                + " removals, "@ + text::decimal(records.skip(first).filter(|r: RecordModel| r is Error).len())
                + " errors"@
        }),
{
    let lines = Seq::new(records.len(), |i: int| Some(records[i]));
    lemma_readable_lines(records);
    let wanted = history::is_wanted(action, repo);
    lemma_all_wanted(records, wanted);
    let part = history::latest(records, last);
    let first = records.len() - shown;
    assert(part =~= records.skip(first));
    assert(history::is_summary() =~= |r: RecordModel| r is Summary);
    assert(history::is_removal() =~= |r: RecordModel| r is Removed);
    assert(history::is_error() =~= |r: RecordModel| r is Error);
    let told = history::history(log_file, Some(lines), last, action, repo);
    assert(told =~= seq![history::heading(shown, records.len(), log_file), ""@] + history::record_lines(part) + seq![
        ""@,
        history::footing(part),
    ]);
    assert forall|i: int| 0 <= i < shown implies told[2 + i] == (#[trigger] records[first + i]).line() by {
        assert(part[i] == records[first + i]);
    }
}

proof fn lemma_readable_lines(records: Seq<RecordModel>)
    ensures
        history::readable(Seq::new(records.len(), |i: int| Some(records[i]))) == records,
    decreases records.len(),
{
    let lines = Seq::new(records.len(), |i: int| Some(records[i]));
    if records.len() > 0 {
        let rest = records.drop_last();
        lemma_readable_lines(rest);
        assert(lines.drop_last() =~= Seq::new(rest.len(), |i: int| Some(rest[i])));
        assert(rest.push(records.last()) =~= records);
    } else {
        assert(records =~= Seq::empty());
    }
}

proof fn lemma_all_wanted(records: Seq<RecordModel>, wanted: spec_fn(RecordModel) -> bool)
    requires
        forall|i: int| 0 <= i < records.len() ==> wanted(#[trigger] records[i]),
    ensures
        records.filter(wanted) == records,
    decreases records.len(),
{
    reveal(Seq::filter);
    if records.len() > 0 {
        let rest = records.drop_last();
        assert forall|i: int| 0 <= i < rest.len() implies wanted(#[trigger] rest[i]) by {
            assert(rest[i] == records[i]);
        }
        lemma_all_wanted(rest, wanted);
        assert(wanted(records[records.len() - 1]));
        assert(rest.push(records.last()) =~= records);
    }
}

/// Where no line is a wanted record the history says so, and where there is no log it says which one
/// was looked for and how to get one.
pub proof fn lemma_empty_history_says_why(
    log_file: Seq<char>,
    lines: Seq<Option<RecordModel>>,
    last: HistoryLast,
    action: Option<Seq<char>>,
    repo: Option<Seq<char>>,
)
    ensures
        (forall|i: int|
            0 <= i < lines.len() ==> (#[trigger] lines[i] matches Some(record) ==> !record.wanted(action, repo)))
            ==> history::history(log_file, Some(lines), last, action, repo) == seq!["No matching records found."@],
        ({
            let told = history::history(log_file, None, last, action, repo);
            &&& told.len() == 2
            &&& told[0] == "No history found (log file does not exist: "@ + log_file + ")"@
            &&& told[1] == "Run `worktree-gc` or `worktree-gc --dry-run` to generate logs."@
        }),
    decreases lines.len(),
{
    let wanted = history::is_wanted(action, repo);
    if forall|i: int|
        0 <= i < lines.len() ==> (#[trigger] lines[i] matches Some(record) ==> !record.wanted(action, repo)) {
        reveal(Seq::filter);
        if lines.len() > 0 {
            let rest = lines.drop_last();
            assert forall|i: int| 0 <= i < rest.len() implies (#[trigger] rest[i] matches Some(record)
                ==> !record.wanted(action, repo)) by {
                assert(rest[i] == lines[i]);
            }
            lemma_empty_history_says_why(log_file, rest, last, action, repo);
            lemma_no_history(log_file, rest, last, action, repo);
            assert(lines[lines.len() - 1] == lines.last());
            let records = history::readable(lines);
            if lines.last() is Some {
                assert(records.drop_last() =~= history::readable(rest));
            }
            assert(records.filter(wanted).len() == 0);
        }
        assert(history::readable(lines).filter(wanted).len() == 0);
    }
}

proof fn lemma_no_history(
    log_file: Seq<char>,
    lines: Seq<Option<RecordModel>>,
    last: HistoryLast,
    action: Option<Seq<char>>,
    repo: Option<Seq<char>>,
)
    requires
        history::history(log_file, Some(lines), last, action, repo) == seq!["No matching records found."@],
    ensures
        history::readable(lines).filter(history::is_wanted(action, repo)).len() == 0,
{
    let records = history::readable(lines).filter(history::is_wanted(action, repo));
    let told = history::history(log_file, Some(lines), last, action, repo);
    assert(told.len() == 1);
    if records.len() > 0 {
        let shown = history::latest(records, last);
        assert(told.len() == 4 + history::record_lines(shown).len());
    }
}

/// The line of a record begins with its time and ends with what it tells, each part in its place.
pub proof fn lemma_line_tells_the_record(record: RecordModel)
    ensures
        record matches RecordModel::Removed { timestamp, repo, branch, pr_number, pr_url, .. } ==> {
            &&& text::has_prefix(record.line(), "  \x1b[1;36m"@ + timestamp + "\x1b[0m"@)
            &&& text::has_suffix(
                record.line(),
                "REMOVED\x1b[0m  "@ + (repo + "  branch:"@ + branch + "  PR #"@ + text::decimal(pr_number as nat) + " "@
                    + pr_url),
            )
        },
        record matches RecordModel::Skipped { timestamp, repo, branch, reason, .. } ==> {
            &&& text::has_prefix(record.line(), "  \x1b[1;36m"@ + timestamp + "\x1b[0m"@)
            &&& text::has_suffix(
                record.line(),
                "SKIPPED\x1b[0m  "@ + (repo + "  branch:"@ + branch + "  reason:"@ + reason),
            )
        },
        record matches RecordModel::Error { timestamp, repo, branch: Some(branch), error, .. } ==> {
            &&& text::has_prefix(record.line(), "  \x1b[1;36m"@ + timestamp + "\x1b[0m"@)
            &&& text::has_suffix(
                record.line(),
                "ERROR\x1b[0m    "@ + (repo + "  branch:"@ + branch + "  "@ + error),
            )
        },
        record matches RecordModel::Error { timestamp, repo, branch: None, error, .. } ==> {
            &&& text::has_prefix(record.line(), "  \x1b[1;36m"@ + timestamp + "\x1b[0m"@)
            &&& text::has_suffix(record.line(), "ERROR\x1b[0m    "@ + (repo + "  branch:-  "@ + error))
        },
{
    match record {
        RecordModel::Removed { timestamp, repo, branch, pr_number, pr_url, .. } => {
            reveal_strlit("\x1b[0m  \x1b[32m🗑  REMOVED\x1b[0m  ");
            reveal_strlit("REMOVED\x1b[0m  ");
            reveal_strlit("\x1b[0m");
            let tail = repo + "  branch:"@ + branch + "  PR #"@ + text::decimal(pr_number as nat) + " "@ + pr_url;
            let (a, b) = ("\x1b[0m"@, "REMOVED\x1b[0m  "@);
            let all = "\x1b[0m  \x1b[32m🗑  REMOVED\x1b[0m  "@;
            let start = "  \x1b[1;36m"@ + timestamp;
            lemma_around(start, all, tail, a, b);
            let p = start + all;
            let number = text::decimal(pr_number as nat);
            lemma_grouped(p, repo, "  branch:"@);
            lemma_grouped(p, repo + "  branch:"@, branch);
            lemma_grouped(p, repo + "  branch:"@ + branch, "  PR #"@);
            lemma_grouped(p, repo + "  branch:"@ + branch + "  PR #"@, number);
            lemma_grouped(p, repo + "  branch:"@ + branch + "  PR #"@ + number, " "@);
            lemma_grouped(p, repo + "  branch:"@ + branch + "  PR #"@ + number + " "@, pr_url);
        },
        RecordModel::Skipped { timestamp, repo, branch, reason, .. } => {
            reveal_strlit("\x1b[0m  \x1b[33m⏭  SKIPPED\x1b[0m  ");
            reveal_strlit("SKIPPED\x1b[0m  ");
            reveal_strlit("\x1b[0m");
            let tail = repo + "  branch:"@ + branch + "  reason:"@ + reason;
            let (a, b) = ("\x1b[0m"@, "SKIPPED\x1b[0m  "@);
            let all = "\x1b[0m  \x1b[33m⏭  SKIPPED\x1b[0m  "@;
            let start = "  \x1b[1;36m"@ + timestamp;
            lemma_around(start, all, tail, a, b);
            let p = start + all;
            lemma_grouped(p, repo, "  branch:"@);
            lemma_grouped(p, repo + "  branch:"@, branch);
            lemma_grouped(p, repo + "  branch:"@ + branch, "  reason:"@);
            lemma_grouped(p, repo + "  branch:"@ + branch + "  reason:"@, reason);
        },
        RecordModel::Error { timestamp, repo, branch, error, .. } => {
            reveal_strlit("\x1b[0m  \x1b[31m❌ ERROR\x1b[0m    ");
            reveal_strlit("ERROR\x1b[0m    ");
            reveal_strlit("\x1b[0m");
            reveal_strlit("  branch:");
            reveal_strlit("  branch:-  ");
            reveal_strlit("-");
            reveal_strlit("  ");
            let name = match branch {
                Some(branch) => branch,
                None => "-"@,
            };
            let tail = repo + "  branch:"@ + name + "  "@ + error;
            let (a, b) = ("\x1b[0m"@, "ERROR\x1b[0m    "@);
            let all = "\x1b[0m  \x1b[31m❌ ERROR\x1b[0m    "@;
            let start = "  \x1b[1;36m"@ + timestamp;
            lemma_around(start, all, tail, a, b);
            let p = start + all;
            lemma_grouped(p, repo, "  branch:"@);
            lemma_grouped(p, repo + "  branch:"@, name);
            lemma_grouped(p, repo + "  branch:"@ + name, "  "@);
            lemma_grouped(p, repo + "  branch:"@ + name + "  "@, error);
            if branch is None {
                assert(tail =~= repo + "  branch:-  "@ + error);
            }
        },
        RecordModel::Summary { .. } => {},
    }
}

proof fn lemma_grouped(p: Seq<char>, a: Seq<char>, b: Seq<char>)
    ensures
        p + (a + b) == p + a + b,
{
    assert(p + (a + b) =~= p + a + b);
}

proof fn lemma_around(start: Seq<char>, all: Seq<char>, tail: Seq<char>, a: Seq<char>, b: Seq<char>)
    requires
        a.len() <= all.len(),
        b.len() <= all.len(),
        all.subrange(0, a.len() as int) =~= a,
        all.subrange(all.len() - b.len(), all.len() as int) =~= b,
    ensures
        text::has_prefix(start + all + tail, start + a),
        text::has_suffix(start + all + tail, b + tail),
{
    let s = start + all + tail;
    assert(s.subrange(0, (start + a).len() as int) =~= start + a) by {
        assert forall|i: int| 0 <= i < a.len() implies all[i] == #[trigger] a[i] by {
            assert(all.subrange(0, a.len() as int)[i] == a[i]);
        }
    }
    assert(s.subrange(s.len() - (b + tail).len(), s.len() as int) =~= b + tail) by {
        assert forall|i: int| 0 <= i < b.len() implies all[all.len() - b.len() + i] == #[trigger] b[i] by {
            assert(all.subrange(all.len() - b.len(), all.len() as int)[i] == b[i]);
        }
    }
}

/// The counts of a run, each behind its name.
pub open spec fn with_counts(
    start: Seq<char>,
    repos: usize,
    worktrees: usize,
    removed: usize,
    skipped: usize,
    errors: usize,
) -> Seq<char> {
    start + "\x1b[0m  repos:"@ + text::decimal(repos as nat) + "  worktrees:"@ + text::decimal(worktrees as nat)
        + "  \x1b[32mremoved:"@ + text::decimal(removed as nat) + "\x1b[0m  skipped:"@ + text::decimal(skipped as nat)
        + "  \x1b[31merrors:"@ + text::decimal(errors as nat) + "\x1b[0m"@
}

/// The line of a run's summary tells its counts, each behind its name, and marks a dry run.
pub proof fn lemma_line_tells_the_counts(
    timestamp: Seq<char>,
    scanned_repos: usize,
    scanned_worktrees: usize,
    removed_count: usize,
    skipped_count: usize,
    error_count: usize,
)
    ensures
        ({
            let made = |dry_run: bool|
                RecordModel::Summary {
                    timestamp,
                    scanned_repos,
                    scanned_worktrees,
                    removed_count,
                    skipped_count,
                    error_count,
                    dry_run,
                }.line();
            let begins = "  \x1b[1;36m"@ + timestamp + "\x1b[0m  \x1b[1m📊 SUMMARY"@;
            &&& made(false) == with_counts(
                begins,
                scanned_repos,
                scanned_worktrees,
                removed_count,
                skipped_count,
                error_count,
            )
            &&& made(true) == with_counts(
                begins + " (dry-run)"@,
                scanned_repos,
                scanned_worktrees,
                removed_count,
                skipped_count,
                error_count,
            )
        }),
{
    reveal_strlit("");
    let begins = "  \x1b[1;36m"@ + timestamp + "\x1b[0m  \x1b[1m📊 SUMMARY"@;
    assert(begins + ""@ =~= begins);
}

} // verus!
