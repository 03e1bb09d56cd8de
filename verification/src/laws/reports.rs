//! What is told: the state of a schedule, an update, the summary of a run, and the menus.
use crate::cli;
use crate::cli::{Commands, HistoryLast, Startup};
use crate::command::OutcomeModel;
use crate::config::{ConfigModel, ScheduleModel, WorkspaceModel};
use crate::error::ErrorModel;
use crate::launchd;
use crate::laws::schedules;
use crate::laws::texts;
use crate::platform;
use crate::platform::{FileModel, HostModel, Platform, ReportModel, UnitModel};
use crate::platform_scheduler;
use crate::plist;
use crate::schedule;
use crate::summary;
use crate::summary::{Level, LineModel};
use crate::systemd;
use crate::text;
use crate::ui;
use crate::ui::{SpanModel, Style};
use crate::update;
use crate::update::UpdateModel;
use crate::workspace;
use vstd::prelude::*;

verus! {

/// The version of a tag is what stands behind the letters `v` that it begins with.
pub proof fn lemma_tag_names_its_version(times: nat, version: Seq<char>)
    requires
        version.len() == 0 || version[0] != 'v',
    ensures
        update::version_of(texts::repeated(seq!['v'], times) + version) == version,
    decreases times,
{
    let tag = texts::repeated(seq!['v'], times) + version;
    if times == 0 {
        assert(tag =~= version);
    } else {
        let less = (times - 1) as nat;
        lemma_tag_names_its_version(less, version);
        lemma_repeated(less);
        assert(tag[0] == 'v');
        assert(tag.drop_first() =~= texts::repeated(seq!['v'], less) + version);
    }
}

proof fn lemma_repeated(times: nat)
    ensures
        texts::repeated(seq!['v'], times + 1) == seq!['v'] + texts::repeated(seq!['v'], times),
    decreases times,
{
    let one = seq!['v'];
    if times > 0 {
        lemma_repeated((times - 1) as nat);
    }
    assert(texts::repeated(one, times + 1) =~= one + texts::repeated(one, times));
}

/// An update is installed where the latest version is newer and more than a check was asked for, and
/// only there; otherwise nothing happens; and where the versions cannot be told apart that is an
/// error. Each time the latest version is told first.
pub proof fn lemma_newer_version_is_installed(latest: Seq<char>, comparison: Result<bool, Seq<char>>, check_only: bool)
    ensures
        ({
            let (told, then) = update::reaction(latest, comparison, check_only);
            &&& told.len() >= 1 && told[0] == "Latest version:  v"@ + latest
            &&& then is Install <==> comparison == Ok::<_, Seq<char>>(true) && !check_only
            &&& then is Stop <==> comparison == Ok::<_, Seq<char>>(false) || comparison == Ok::<_, Seq<char>>(true)
                && check_only
            &&& comparison matches Err(e) ==> told.len() == 1 && (then matches UpdateModel::Fail(error) && error.text
                == "Failed to compare versions: "@ + e)
            &&& comparison == Ok::<_, Seq<char>>(false) ==> told == seq![told[0], "Already up to date."@]
            &&& comparison == Ok::<_, Seq<char>>(true) && check_only ==> told == seq![
                told[0],
                "Run `worktree-gc update` to upgrade."@,
            ]
            &&& comparison == Ok::<_, Seq<char>>(true) && !check_only ==> told == seq![
                told[0],
                "Updating to v"@ + latest + "..."@,
            ]
        }),
{
}

/// Without a release nothing happens; with one, the version behind its tag is compared with the
/// running one, and installed where it is newer and more than a check was asked for.
pub proof fn lemma_release_decides_on_the_update(current: Seq<char>, times: nat, version: Seq<char>, check_only: bool)
    requires
        version.len() == 0 || version[0] != 'v',
    ensures
        update::update(current, None, check_only).1 is Stop,
        update::update(current, None, check_only).0 == seq!["No releases found on GitHub."@],
        ({
            let tag = texts::repeated(seq!['v'], times) + version;
            let (told, then) = update::update(current, Some(tag), check_only);
            &&& told.len() >= 1 && told[0] == "Latest version:  v"@ + version
            &&& then is Install <==> update::version_bump(current, version) == Ok::<_, Seq<char>>(true) && !check_only
            &&& update::closing(tag) == "Updated successfully to v"@ + version + "!"@
        }),
{
    lemma_tag_names_its_version(times, version);
    let latest = version;
    lemma_newer_version_is_installed(latest, update::version_bump(current, latest), check_only);
}

/// The summary of a run holds its counts, and is told with every worktree that was removed and every
/// error, in their order.
pub proof fn lemma_summary_tells_the_counts(result: crate::repo_run::ResultModel, dry_run: bool, now: Seq<char>)
    ensures
        summary::summary_of(result, dry_run, now) matches crate::logging::RecordModel::Summary {
            timestamp,
            scanned_repos,
            scanned_worktrees,
            removed_count,
            skipped_count,
            error_count,
            dry_run: dry,
        } && {
            &&& timestamp == now && dry == dry_run
            &&& result.scanned_repos <= usize::MAX ==> scanned_repos == result.scanned_repos
            &&& result.scanned_worktrees <= usize::MAX ==> scanned_worktrees == result.scanned_worktrees
            &&& result.removed.len() <= usize::MAX ==> removed_count == result.removed.len()
            &&& result.skipped.len() <= usize::MAX ==> skipped_count == result.skipped.len()
            &&& result.errors.len() <= usize::MAX ==> error_count == result.errors.len()
        },
        ({
            let told = summary::told(result, dry_run);
            let n = 4 + result.removed.len() as int;
            &&& told[0] == (LineModel { level: Level::Info, text: "--- Summary ---"@ })
            &&& told[1] == (LineModel {
                level: Level::Info,
                text: "Repos scanned: "@ + text::decimal(result.scanned_repos),
            })
            &&& told[2] == (LineModel {
                level: Level::Info,
                text: "Worktrees checked: "@ + text::decimal(result.scanned_worktrees),
            })
            &&& dry_run ==> told[3] == (LineModel {
                level: Level::Info,
                text: "Removed: "@ + text::decimal(result.removed.len()) + " "@ + "(dry-run)"@,
            })
            &&& !dry_run ==> told[3] == (LineModel {
                level: Level::Info,
                text: "Removed: "@ + text::decimal(result.removed.len()) + " "@,
            })
            &&& forall|i: int|
                0 <= i < result.removed.len() ==> told[4 + i] == (LineModel {
                    level: Level::Info,
                    text: "  - "@ + #[trigger] result.removed[i],
                })
            &&& result.errors.len() == 0 ==> told.len() == n
            &&& result.errors.len() > 0 ==> {
                &&& told.len() == n + 1 + result.errors.len()
                &&& told[n] == (LineModel {
                    level: Level::Warning,
                    text: "Errors: "@ + text::decimal(result.errors.len()),
                })
                &&& forall|i: int|
                    0 <= i < result.errors.len() ==> told[n + 1 + i] == (LineModel {
                        level: Level::Warning,
                        text: "  - "@ + #[trigger] result.errors[i],
                    })
            }
        }),
{
    reveal_strlit("");
    let told = summary::told(result, dry_run);
    let removed = summary::item_lines(result.removed, Level::Info);
    let errors = summary::item_lines(result.errors, Level::Warning);
    let n = 4 + result.removed.len() as int;
    let plain = "Removed: "@ + text::decimal(result.removed.len()) + " "@;
    assert(plain + ""@ =~= plain);
    assert forall|i: int| 0 <= i < result.removed.len() implies told[4 + i] == (LineModel {
        level: Level::Info,
        text: "  - "@ + #[trigger] result.removed[i],
    }) by {
        assert(told[4 + i] == removed[i]);
    }
    if result.errors.len() > 0 {
        assert forall|i: int| 0 <= i < result.errors.len() implies told[n + 1 + i] == (LineModel {
            level: Level::Warning,
            text: "  - "@ + #[trigger] result.errors[i],
        }) by {
            assert(told[n + 1 + i] == errors[i]);
        }
    }
}

/// A job is loaded where its label stands anywhere in a line of what `launchctl list` wrote.
pub proof fn lemma_listed_jobs_are_loaded(listing: Seq<char>, label: Seq<char>)
    ensures
        launchd::is_loaded(listing, label) <==> exists|i: int, k: int|
            {
                &&& 0 <= i < text::lines(listing).len()
                &&& 0 <= k <= text::lines(listing)[i].len() - label.len()
                &&& #[trigger] text::lines(listing)[i].subrange(k, k + label.len()) == label
            },
{
    let ls = text::lines(listing);
    if launchd::is_loaded(listing, label) {
        let i = choose|i: int| 0 <= i < ls.len() && #[trigger] text::contains(ls[i], label);
        let k = choose|k: int| 0 <= k <= ls[i].len() - label.len() && #[trigger] ls[i].subrange(k, k + label.len()) == label;
        assert(ls[i].subrange(k, k + label.len()) == label);
    }
    if exists|i: int, k: int|
        {
            &&& 0 <= i < ls.len()
            &&& 0 <= k <= ls[i].len() - label.len()
            &&& #[trigger] ls[i].subrange(k, k + label.len()) == label
        } {
        let (i, k) = choose|i: int, k: int|
            {
                &&& 0 <= i < ls.len()
                &&& 0 <= k <= ls[i].len() - label.len()
                &&& #[trigger] ls[i].subrange(k, k + label.len()) == label
            };
        assert(text::contains(ls[i], label));
    }
}

/// The line tells the word beside the name.
pub open spec fn tells(line: Seq<SpanModel>, name: Seq<char>, word: Seq<char>, style: Style) -> bool {
    line == ui::two("  "@, ui::span(name, Style::Name), ui::span(word, style))
}

/// Under launchd a schedule without a file is told as not installed, one with a file as active where
/// its job is loaded, and as not loaded otherwise, with the command that loads it; and its time is
/// the one in its file.
pub proof fn lemma_launchd_state_is_told(
    home: Seq<char>,
    name: Seq<char>,
    content: Seq<char>,
    listing: Seq<char>,
)
    requires
        schedules::is_home(home),
        schedules::good_name(name),
        name != "daily"@,
    ensures
        ({
            let told = launchd::unit_report(Some(home), name, FileModel::Absent, listing);
            &&& told.error is None && told.lines.len() == 2
            &&& tells(told.lines[0], name, "not installed"@, Style::Warning)
            &&& told.lines[1] == ui::two(
                "    "@,
                ui::label_of("Plist"@),
                ui::span(schedules::plist_file(home, name), Style::Path),
            )
        }),
        ({
            let told = launchd::unit_report(Some(home), name, FileModel::Content(content), listing);
            let file = schedules::plist_file(home, name);
            let loaded = launchd::is_loaded(listing, "com.worktree-gc."@ + name);
            let timed = plist::time_in(content) is Some;
            let n = 2 + if timed {
                1int
            } else {
                0
            };
            &&& told.error is None
            &&& told.lines[1] == ui::two("    "@, ui::label_of("Plist"@), ui::span(file, Style::Path))
            &&& timed ==> told.lines[2] == ui::two(
                "    "@,
                ui::label_of("Time"@),
                ui::span(plist::time_in(content)->0, Style::Value),
            )
            &&& loaded ==> told.lines.len() == n && tells(told.lines[0], name, "active"@, Style::Success)
            &&& !loaded ==> told.lines.len() == n + 1 && tells(
                told.lines[0],
                name,
                "installed but not loaded"@,
                Style::Warning,
            ) && told.lines.last() == ui::two(
                "    "@,
                ui::label_of("Activate"@),
                ui::span("launchctl load "@ + file, Style::Value),
            )
        }),
{
    schedules::lemma_good_names_are_taken("schedule"@, name);
    schedules::lemma_files_lie_in_the_home_directory(home, name);
}

/// Under systemd a schedule without a timer is told as not installed, and one with a timer with what
/// systemd says of it, the calendar in its file and the next run.
pub proof fn lemma_systemd_state_is_told(
    home: Seq<char>,
    name: Seq<char>,
    unit: UnitModel,
    content: Seq<char>,
    success: bool,
    stdout: Seq<char>,
    stderr: Seq<char>,
)
    requires
        schedules::is_home(home),
        schedules::good_name(name),
        name != "daily"@,
        unit.active == (OutcomeModel::Exited { success, stdout, stderr }),
    ensures
        ({
            let told = systemd::unit_report(Some(home), name, unit);
            let service = ui::two(
                "    "@,
                ui::label_of("Service"@),
                ui::span(schedules::service_file(home, name), Style::Path),
            );
            let timer = ui::two(
                "    "@,
                ui::label_of("Timer"@),
                ui::span(schedules::timer_file(home, name), Style::Path),
            );
            let when = systemd::calendar_in(text::lines(content));
            let next = systemd::next_run(unit.timers);
            &&& told.lines[1] == service && told.lines[2] == timer
            &&& unit.file is Absent ==> told.error is None && told.lines.len() == 3 && tells(
                told.lines[0],
                name,
                "not installed"@,
                Style::Warning,
            )
            &&& unit.file == FileModel::Content(content) ==> {
                &&& told.error is None
                &&& tells(told.lines[0], name, text::trim(stdout), Style::Value)
                &&& when is Some ==> told.lines.len() > 3 && told.lines[3] == ui::two(
                    "    "@,
                    ui::label_of("Schedule"@),
                    ui::span(when->0, Style::Value),
                )
                &&& next is Some ==> told.lines.len() > 3 && told.lines.last() == ui::two(
                    "    "@,
                    ui::label_of("Next run"@),
                    ui::span(next->0, Style::Value),
                )
                &&& told.lines.len() == 3 + (if when is Some {
                    1int
                } else {
                    0
                }) + (if next is Some {
                    1int
                } else {
                    0
                })
            }
        }),
{
    schedules::lemma_good_names_are_taken("schedule"@, name);
    schedules::lemma_files_lie_in_the_home_directory(home, name);
}

/// The next run is the second line of what `systemctl list-timers` wrote.
pub proof fn lemma_next_run_is_the_second_line(
    first: Seq<char>,
    second: Seq<char>,
    rest: Seq<char>,
    success: bool,
    stderr: Seq<char>,
)
    requires
        forall|i: int| 0 <= i < first.len() ==> first[i] != '\n',
        forall|i: int| 0 <= i < second.len() ==> second[i] != '\n',
        second.len() == 0 || second.last() != '\r',
    ensures
        systemd::next_run(
            OutcomeModel::Exited { success, stdout: first + seq!['\n'] + (second + seq!['\n'] + rest), stderr },
        ) == Some(second),
{
    let behind = second + seq!['\n'] + rest;
    texts::lemma_text_is_its_lines(first, behind);
    texts::lemma_text_is_its_lines(second, rest);
    let all = first + seq!['\n'] + behind;
    if first.len() > 0 && first.last() == '\r' {
        let short = first.drop_last();
        texts::lemma_text_is_its_lines(short, behind);
        assert(all =~= short + seq!['\r', '\n'] + behind);
    }
    assert(text::lines(all)[1] == text::lines(behind)[0]);
}

/// The states of several schedules are told one after the other, up to the first that cannot be.
pub proof fn lemma_states_are_told_in_turn(
    host: HostModel,
    names: Seq<Seq<char>>,
    name: Seq<char>,
    units: Seq<UnitModel>,
    listing: Seq<char>,
)
    ensures
        platform_scheduler::states(host, Seq::empty(), units, listing) == ReportModel::fine(Seq::empty()),
        ({
            let before = platform_scheduler::states(host, names, units, listing);
            let own = platform_scheduler::state_of(host, name, units, listing);
            let all = platform_scheduler::states(host, names.push(name), units, listing);
            &&& before.error is Some ==> all == before
            &&& before.error is None ==> all.lines == before.lines + own.lines && all.error == own.error
        }),
{
    assert(names.push(name).drop_last() =~= names);
}

/// What was seen of a schedule is what was seen of the first unit of its name.
pub proof fn lemma_first_unit_of_the_name_is_watched(before: Seq<UnitModel>, unit: UnitModel, behind: Seq<UnitModel>)
    requires
        forall|i: int| 0 <= i < before.len() ==> (#[trigger] before[i]).name != unit.name,
    ensures
        platform::watched(before + seq![unit] + behind, unit.name) == Some(unit),
        platform::watched(before, unit.name) is None,
    decreases before.len(),
{
    let all = before + seq![unit] + behind;
    if before.len() == 0 {
        assert(all[0] == unit);
    } else {
        let rest = before.drop_first();
        assert forall|i: int| 0 <= i < rest.len() implies (#[trigger] rest[i]).name != unit.name by {
            assert(rest[i] == before[i + 1]);
        }
        lemma_first_unit_of_the_name_is_watched(rest, unit, behind);
        assert(all[0] == before[0]);
        assert(before[0].name != unit.name);
        assert(all.drop_first() =~= rest + seq![unit] + behind);
    }
}

/// Behind each choice of the menus stands what it says.
pub proof fn lemma_choices_do_what_they_say(dry_run: bool, config: ConfigModel, built_in: Seq<char>, i: usize)
    ensures
        ({
            let choices = cli::command_menu_model(dry_run).choices;
            &&& choices.len() == 6
            &&& cli::command_behind(0) is Some && cli::command_behind(0)->0 is Run && choices[0] == if dry_run {
                "Run cleanup now (--dry-run)"@
            } else {
                "Run cleanup now"@
            }
            &&& choices[1] == "Manage schedule"@ && cli::command_behind(1) == Some(Commands::Schedule { action: None })
            &&& choices[2] == "Manage workspaces"@ && cli::command_behind(2) == Some(
                Commands::Workspace { action: None },
            )
            &&& choices[3] == "Show history"@ && cli::command_behind(3) == Some(
                Commands::History { last: HistoryLast::Count(10), action: None, repo: None },
            )
            &&& choices[4] == "Show config"@ && cli::command_behind(4) == Some(Commands::Config { action: None })
            &&& choices[5] == "Cancel"@ && (i >= 5 ==> cli::command_behind(i) is None)
        }),
        ({
            let choices = workspace::wizard(config, built_in).choices;
            &&& choices.len() == 5
            &&& choices[0] == "Add workspace"@ && workspace::choice_behind(0) is Add
            &&& choices[1] == "Update workspace"@ && workspace::choice_behind(1) is Update
            &&& choices[2] == "Remove workspace"@ && workspace::choice_behind(2) is Remove
            &&& choices[3] == "List workspaces"@ && workspace::choice_behind(3) is List
            &&& choices[4] == "Cancel"@ && (i >= 4 ==> workspace::choice_behind(i) is Cancel)
        }),
        ({
            let choices = schedule::wizard(config, built_in).choices;
            &&& choices.len() == 5
            &&& choices[0] == "Add schedule"@ && schedule::choice_behind(0) is Add
            &&& choices[1] == "Update schedule"@ && schedule::choice_behind(1) is Update
            &&& choices[2] == "Remove schedule"@ && schedule::choice_behind(2) is Remove
            &&& choices[3] == "Show scheduler status"@ && schedule::choice_behind(3) is Status
            &&& choices[4] == "Cancel"@ && (i >= 4 ==> schedule::choice_behind(i) is Cancel)
        }),
{
}

/// A command that was asked for is executed; without one the program cleans up, and opens its menu
/// where it was called by its name alone.
pub proof fn lemma_program_starts_with_what_was_asked(command: Commands, args: Seq<Seq<char>>)
    ensures
        cli::first_step(Some(command), args) == Startup::Execute(command),
        cli::first_step(None, args) is OpenMenu <==> args.len() <= 1,
        args.len() > 1 ==> cli::first_step(None, args) == Startup::Execute(Commands::Run),
{
}

/// Each choice of a list of workspaces or schedules names the one at its place.
pub proof fn lemma_choices_name_their_objects(workspaces: Seq<WorkspaceModel>, schedules: Seq<ScheduleModel>, i: int)
    ensures
        workspace::choice_labels(workspaces).len() == workspaces.len(),
        0 <= i < workspaces.len() ==> workspace::choice_labels(workspaces)[i] == workspaces[i].name + " ("@
            + workspaces[i].dir + ")"@,
        schedule::choice_labels(schedules).len() == schedules.len(),
        0 <= i < schedules.len() ==> schedule::choice_labels(schedules)[i] == schedules[i].name + " ("@
            + schedules[i].workspace + ", "@ + platform::clock(schedules[i].hour as nat, schedules[i].minute as nat)
            + ")"@,
{
}

/// Saved workspaces and schedules are listed in their order, with all that is saved of them.
pub proof fn lemma_saved_things_are_listed(config: ConfigModel, built_in: Seq<char>, i: int)
    ensures
        0 <= i < config.workspaces.len() ==> {
            let told = workspace::registered(config, built_in);
            let w = config.workspaces[i];
            &&& told.len() == 1 + 3 * config.workspaces.len()
            &&& told[1 + 3 * i] == ui::one("  "@, ui::span(w.name, Style::Name))
            &&& told[2 + 3 * i] == ui::two("    "@, ui::label_of("Dir"@), ui::span(w.dir, Style::Path))
            &&& told[3 + 3 * i] == ui::two(
                "    "@,
                ui::label_of("Log"@),
                ui::span(workspace::log_display(w, config, built_in), Style::Value),
            )
        },
        0 <= i < config.schedules.len() ==> {
            let told = schedule::registered(config.schedules);
            let s = config.schedules[i];
            &&& told.len() == 1 + 3 * config.schedules.len()
            &&& told[1 + 3 * i] == ui::text_line("  "@ + s.name)
            &&& told[2 + 3 * i] == ui::text_line("    Workspace: "@ + s.workspace)
            &&& told[3 + 3 * i] == ui::text_line(
                "    Time:      "@ + platform::clock(s.hour as nat, s.minute as nat) + " daily"@,
            )
        },
{
    if 0 <= i < config.workspaces.len() {
        lemma_workspace_entries(config.workspaces, config, built_in, i);
        let all = workspace::entries(config.workspaces, config, built_in);
        let own = workspace::entry_lines(config.workspaces[i], config, built_in);
        assert(all[3 * i + 0] == own[0] && all[3 * i + 1] == own[1] && all[3 * i + 2] == own[2]);
    }
    if 0 <= i < config.schedules.len() {
        lemma_schedule_entries(config.schedules, i);
        let all = schedule::entries(config.schedules);
        let own = schedule::entry_lines(config.schedules[i]);
        assert(all[3 * i + 0] == own[0] && all[3 * i + 1] == own[1] && all[3 * i + 2] == own[2]);
        let s = config.schedules[i];
        let t = platform::clock(s.hour as nat, s.minute as nat);
        assert("    Time:      "@ + (t + " daily"@) =~= "    Time:      "@ + t + " daily"@);
    }
}

proof fn lemma_workspace_entries(ws: Seq<WorkspaceModel>, config: ConfigModel, built_in: Seq<char>, i: int)
    requires
        0 <= i < ws.len(),
    ensures
        workspace::entries(ws, config, built_in).len() == 3 * ws.len(),
        forall|k: int|
            0 <= k < 3 ==> workspace::entries(ws, config, built_in)[3 * i + k] == #[trigger] workspace::entry_lines(
                ws[i],
                config,
                built_in,
            )[k],
    decreases ws.len(),
{
    reveal_with_fuel(workspace::entries, 2);
    let rest = ws.drop_last();
    let own = workspace::entry_lines(ws.last(), config, built_in);
    assert(own.len() == 3);
    if rest.len() > 0 {
        if i < rest.len() {
            lemma_workspace_entries(rest, config, built_in, i);
            assert(rest[i] == ws[i]);
        } else {
            lemma_workspace_entries(rest, config, built_in, 0);
        }
    }
}

proof fn lemma_schedule_entries(schedules: Seq<ScheduleModel>, i: int)
    requires
        0 <= i < schedules.len(),
    ensures
        schedule::entries(schedules).len() == 3 * schedules.len(),
        forall|k: int|
            0 <= k < 3 ==> schedule::entries(schedules)[3 * i + k] == #[trigger] schedule::entry_lines(schedules[i])[k],
    decreases schedules.len(),
{
    reveal_with_fuel(schedule::entries, 2);
    let rest = schedules.drop_last();
    let own = schedule::entry_lines(schedules.last());
    assert(own.len() == 3);
    if rest.len() > 0 {
        if i < rest.len() {
            lemma_schedule_entries(rest, i);
            assert(rest[i] == schedules[i]);
        } else {
            lemma_schedule_entries(rest, 0);
        }
    }
}

/// The state of a schedule is that of the first unit of its name that was seen, and of one that was
/// not seen it is that it is not installed.
pub proof fn lemma_state_is_that_of_the_unit(
    host: HostModel,
    home: Seq<char>,
    name: Seq<char>,
    before: Seq<UnitModel>,
    unit: UnitModel,
    behind: Seq<UnitModel>,
    listing: Seq<char>,
)
    requires
        host.home == Some(home),
        schedules::is_home(home),
        schedules::good_name(name),
        name != "daily"@,
        unit.name == name,
        forall|i: int| 0 <= i < before.len() ==> (#[trigger] before[i]).name != name,
    ensures
        ({
            let seen = platform_scheduler::state_of(host, name, before + seq![unit] + behind, listing);
            &&& host.platform is Launchd ==> seen == launchd::unit_report(Some(home), name, unit.file, listing)
            &&& host.platform is Systemd ==> seen == systemd::unit_report(Some(home), name, unit)
        }),
        ({
            let unseen = platform_scheduler::state_of(host, name, before, listing);
            host.platform !is Unsupported ==> unseen.lines.len() >= 2 && tells(
                unseen.lines[0],
                name,
                "not installed"@,
                Style::Warning,
            ) && unseen.error is None
        }),
{
    schedules::lemma_good_names_are_taken("schedule"@, name);
    lemma_first_unit_of_the_name_is_watched(before, unit, behind);
}

/// A report on the schedules has its heading, then each schedule, and then the older one where it is
/// still there; a listing that could not be had is an error.
pub proof fn lemma_report_goes_over_the_schedules(
    host: HostModel,
    home: Seq<char>,
    names: Seq<Seq<char>>,
    watch: crate::platform::WatchModel,
    success: bool,
    stdout: Seq<char>,
    stderr: Seq<char>,
    cause: Seq<char>,
)
    requires
        host.home == Some(home),
        schedules::is_home(home),
        platform_scheduler::states(
            host,
            names,
            watch.units,
            if host.platform is Launchd {
                stdout
            } else {
                ""@
            },
        ).error is None,
    ensures
        ({
            let told = platform_scheduler::configuration(host, names, watch);
            let each = platform_scheduler::states(
                host,
                names,
                watch.units,
                if host.platform is Launchd {
                    stdout
                } else {
                    ""@
                },
            ).lines;
            let n = 2 + each.len() as int;
            let older = ui::two("  "@, ui::span("legacy daily"@, Style::Name), ui::span("installed"@, Style::Warning));
            let ready = host.platform is Systemd || host.platform is Launchd && watch.listing == (
            OutcomeModel::Exited { success, stdout, stderr });
            &&& told.lines[0] == ui::one(""@, ui::span("Schedule configuration"@, Style::Title))
            &&& host.platform is Launchd ==> told.lines[1] == ui::two(
                "  "@,
                ui::label_of("Scheduler"@),
                ui::span("launchd"@, Style::Value),
            )
            &&& host.platform is Systemd ==> told.lines[1] == ui::two(
                "  "@,
                ui::label_of("Scheduler"@),
                ui::span("systemd"@, Style::Value),
            )
            &&& host.platform is Unsupported ==> told.error is None && told.lines.len() == 3 && told.lines[2] == ui::two(
                "  "@,
                ui::label_of("Status"@),
                ui::span("not supported on this platform"@, Style::Muted),
            )
            &&& ready ==> told.error is None && told.lines.subrange(2, n) == each
            &&& ready && !watch.legacy_installed ==> told.lines.len() == n
            &&& ready && watch.legacy_installed ==> told.lines.len() == n + 2 && told.lines[n] == older
            &&& ready && watch.legacy_installed && host.platform is Launchd ==> told.lines[n + 1] == ui::two(
                "    "@,
                ui::label_of("Plist"@),
                ui::span(schedules::plist_file(home, "daily"@), Style::Path),
            )
            &&& ready && watch.legacy_installed && host.platform is Systemd ==> told.lines[n + 1] == ui::two(
                "    "@,
                ui::label_of("Timer"@),
                ui::span(home + "/.config/systemd/user/worktree-gc.timer"@, Style::Path),
            )
            &&& host.platform is Launchd && watch.listing == (OutcomeModel::NotStarted { cause }) ==> (
            told.error matches Some(e) && e.text == "Failed to run launchctl list"@ && e.cause == Some(cause))
        }),
{
    schedules::lemma_files_lie_in_the_home_directory(home, "default"@.subrange(0, 0));
    let told = platform_scheduler::configuration(host, names, watch);
    let each = platform_scheduler::states(
        host,
        names,
        watch.units,
        if host.platform is Launchd {
            stdout
        } else {
            ""@
        },
    ).lines;
    let n = 2 + each.len() as int;
    if host.platform is Systemd || host.platform is Launchd && watch.listing == (OutcomeModel::Exited {
        success,
        stdout,
        stderr,
    }) {
        assert(told.lines.subrange(2, n) =~= each);
    }
}

/// The daily schedule is told as not installed where its file is not there, and otherwise with its
/// state, its files and the time in its file.
pub proof fn lemma_daily_state_is_told(
    host: HostModel,
    home: Seq<char>,
    content: Seq<char>,
    success: bool,
    stdout: Seq<char>,
    stderr: Seq<char>,
    other: OutcomeModel,
    timers: OutcomeModel,
)
    requires
        host.home == Some(home),
        schedules::is_home(home),
    ensures
        ({
            let answer = OutcomeModel::Exited { success, stdout, stderr };
            let file = schedules::plist_file(home, "daily"@);
            let service = home + "/.config/systemd/user/worktree-gc.service"@;
            let timer = home + "/.config/systemd/user/worktree-gc.timer"@;
            let absent = crate::scheduler::configuration(host, FileModel::Absent, answer, answer, timers);
            let there = crate::scheduler::configuration(
                host,
                FileModel::Content(content),
                if host.platform is Launchd {
                    answer
                } else {
                    other
                },
                if host.platform is Systemd {
                    answer
                } else {
                    other
                },
                timers,
            );
            let when = plist::time_in(content);
            let calendar = systemd::calendar_in(text::lines(content));
            let next = systemd::next_run(timers);
            &&& absent.error is None && there.error is None
            &&& there.lines[0] == ui::text_line("Schedule configuration:"@)
            &&& host.platform is Unsupported ==> absent.lines[2] == ui::text_line(
                "  Status:    not supported on this platform"@,
            )
            &&& host.platform !is Unsupported ==> absent.lines[2] == ui::text_line("  Status:    not installed"@)
            &&& host.platform is Launchd ==> {
                let loaded = launchd::is_loaded(stdout, "com.worktree-gc.daily"@);
                &&& there.lines[1] == ui::text_line("  Scheduler: launchd"@)
                &&& loaded ==> there.lines[2] == ui::text_line("  Status:    active"@)
                &&& !loaded ==> there.lines[2] == ui::text_line("  Status:    installed but not loaded"@)
                &&& !loaded ==> there.lines.last() == ui::text_line("  Activate:  launchctl load "@ + file)
                &&& there.lines[3] == ui::text_line("  Plist:     "@ + file)
                &&& when is Some ==> there.lines[4] == ui::text_line("  Time:      "@ + when->0)
            }
            &&& host.platform is Systemd ==> {
                &&& there.lines[1] == ui::text_line("  Scheduler: systemd"@)
                &&& there.lines[2] == ui::text_line("  Status:    "@ + text::trim(stdout))
                &&& there.lines[3] == ui::text_line("  Service:   "@ + service)
                &&& there.lines[4] == ui::text_line("  Timer:     "@ + timer)
                &&& calendar is Some ==> there.lines[5] == ui::text_line("  Schedule:  "@ + calendar->0)
                &&& next is Some ==> there.lines.last() == ui::text_line("  Next run:  "@ + next->0)
            }
        }),
{
    schedules::lemma_files_lie_in_the_home_directory(home, "default"@.subrange(0, 0));
    reveal_strlit("  Scheduler: ");
    reveal_strlit("  Scheduler: launchd");
    reveal_strlit("  Scheduler: systemd");
    reveal_strlit("launchd");
    reveal_strlit("systemd");
    reveal_strlit("  Status:    ");
    reveal_strlit("active");
    reveal_strlit("installed but not loaded");
    reveal_strlit("  Status:    active");
    reveal_strlit("  Status:    installed but not loaded");
    assert("  Scheduler: "@ + "launchd"@ =~= "  Scheduler: launchd"@);
    assert("  Scheduler: "@ + "systemd"@ =~= "  Scheduler: systemd"@);
    assert("  Status:    "@ + "active"@ =~= "  Status:    active"@);
    assert("  Status:    "@ + "installed but not loaded"@ =~= "  Status:    installed but not loaded"@);
}

/// What is told before a cleanup in a workspace, of a schedule that was saved, and before a workspace
/// or a schedule is saved, is what was chosen.
pub proof fn lemma_choices_are_told_back(
    settings: cli::CliModel,
    name: Seq<char>,
    other: Seq<char>,
    dir: Seq<char>,
    log_file: Option<Seq<char>>,
    hour: u8,
    minute: u8,
)
    requires
        settings.workspace == Some(name),
    ensures
        ({
            let told = workspace::run_lines(settings);
            &&& told.len() == 6
            &&& told[2] == ui::two("  "@, ui::label_of("Workspace"@), ui::span(name, Style::Name))
            &&& told[3] == ui::two("  "@, ui::label_of("Directory"@), ui::span(settings.dir, Style::Path))
            &&& told[4] == ui::two("  "@, ui::label_of("Log file"@), ui::span(settings.log_file, Style::Path))
        }),
        ({
            let told = workspace::summary_lines(name, dir, log_file, other);
            &&& told.len() == 6
            &&& told[2] == ui::two("  "@, ui::label_of("Workspace"@), ui::span(name, Style::Name))
            &&& told[3] == ui::two("  "@, ui::label_of("Directory"@), ui::span(dir, Style::Path))
            &&& log_file is Some ==> told[4] == ui::two(
                "  "@,
                ui::label_of("Log file"@),
                ui::span(log_file->0, Style::Plain),
            )
            &&& log_file is None ==> told[4] == ui::two(
                "  "@,
                ui::label_of("Log file"@),
                ui::span("(global default: "@ + other + ")"@, Style::Plain),
            )
        }),
        ({
            let told = schedule::saved_lines(name, other, dir);
            &&& told.len() == 3
            &&& told[0] == ui::text_line("  Schedule:  "@ + name)
            &&& told[1] == ui::text_line("  Workspace: "@ + other)
            &&& told[2] == ui::text_line("  Config:    "@ + dir)
        }),
        ({
            let told = schedule::summary_lines(name, other, hour, minute);
            let time = platform::clock(hour as nat, minute as nat);
            &&& told.len() == 6
            &&& told[2] == ui::one("  Schedule:  "@, ui::span(name, Style::Value))
            &&& told[3] == ui::one("  Workspace: "@, ui::span(other, Style::Value))
            &&& told[4] == ui::one("  Run daily: "@, ui::span(time, Style::Value))
        }),
        ({
            let told = crate::scheduler::summary(dir, hour, minute, Platform::Systemd);
            let time = platform::clock(hour as nat, minute as nat);
            &&& told.len() == 6
            &&& told[2] == ui::one("  Scan directory: "@, ui::span(dir, Style::Value))
            &&& told[3] == ui::one("  Run daily at:   "@, ui::span(time, Style::Value))
            &&& told[4] == ui::one("  Scheduler:      "@, ui::span("systemd"@, Style::Value))
        }),
        update::opening(name) == seq![
            "Current version: v"@ + name,
            "Checking for updates from github.com/yuto-ts/worktree-gc..."@,
        ],
{
}

/// What stands on a line.
pub open spec fn text_of(line: Seq<SpanModel>) -> Seq<char>
    decreases line.len(),
{
    if line.len() == 0 {
        Seq::empty()
    } else {
        line[0].text + text_of(line.drop_first())
    }
}

/// A line shows its parts in their order: the indent, then what it was made of, with a blank between
/// two of them, and a label has a colon behind it.
pub proof fn lemma_lines_show_their_parts(indent: Seq<char>, label: Seq<char>, value: Seq<char>, style: Style)
    ensures
        text_of(ui::text_line(value)) == value,
        text_of(ui::one(indent, ui::span(value, style))) == indent + value,
        text_of(ui::two(indent, ui::label_of(label), ui::span(value, style))) == indent + label + ": "@ + value,
        text_of(ui::two(indent, ui::span(label, style), ui::span(value, style))) == indent + label + " "@ + value,
        ui::span(value, style).style == style,
        ui::switch(true).text == "enabled"@,
        ui::switch(false).text == "disabled"@,
        text_of(ui::blank()) == Seq::<char>::empty(),
{
    reveal_strlit("");
    reveal_strlit(" ");
    reveal_strlit(":");
    reveal_strlit(": ");
    reveal_with_fuel(text_of, 5);
    let a = ui::two(indent, ui::label_of(label), ui::span(value, style));
    let b = ui::two(indent, ui::span(label, style), ui::span(value, style));
    let c = ui::one(indent, ui::span(value, style));
    let d = ui::text_line(value);
    lemma_text_of_two(indent, ui::label_of(label), ui::span(value, style));
    lemma_text_of_two(indent, ui::span(label, style), ui::span(value, style));
    assert(text_of(a) =~= indent + label + ": "@ + value);
    assert(text_of(b) =~= indent + label + " "@ + value);
    assert(c.drop_first().drop_first() =~= Seq::empty());
    assert(text_of(c) =~= indent + value);
    assert(d.drop_first() =~= Seq::empty());
    assert(text_of(d) =~= value);
    assert(ui::blank().drop_first() =~= Seq::empty());
    assert(text_of(ui::blank()) =~= Seq::empty());
}

proof fn lemma_text_of_two(indent: Seq<char>, a: SpanModel, b: SpanModel)
    ensures
        text_of(ui::two(indent, a, b)) == indent + (a.text + (" "@ + b.text)),
{
    reveal_with_fuel(text_of, 5);
    let line = ui::two(indent, a, b);
    let one = line.drop_first();
    let two = one.drop_first();
    let three = two.drop_first();
    assert(three.drop_first() =~= Seq::empty());
    assert(text_of(three) =~= b.text);
    assert(text_of(two) =~= " "@ + b.text);
    assert(text_of(one) =~= a.text + (" "@ + b.text));
}

/// What could not be found out is an error with its cause: a listing or a state that could not be
/// asked for, and a file that could not be read.
pub proof fn lemma_unknown_states_are_errors(
    host: HostModel,
    home: Seq<char>,
    name: Seq<char>,
    unit: UnitModel,
    cause: Seq<char>,
    listing: Seq<char>,
    success: bool,
    stderr: Seq<char>,
    other: OutcomeModel,
)
    requires
        host.home == Some(home),
        schedules::good_name(name),
        name != "daily"@,
        unit.file !is Absent,
    ensures
        launchd::unit_report(Some(home), name, FileModel::Unreadable(cause), listing).error == Some(
            ErrorModel { text: cause, cause: None },
        ),
        unit.active == (OutcomeModel::NotStarted { cause }) ==> systemd::unit_report(Some(home), name, unit).error
            == Some(ErrorModel { text: "Failed to check timer status"@, cause: Some(cause) }),
        unit.active is Exited && unit.file == FileModel::Unreadable(cause) ==> systemd::unit_report(
            Some(home),
            name,
            unit,
        ).error == Some(ErrorModel { text: cause, cause: None }),
        launchd::unit_report(None, name, unit.file, listing).error == Some(
            ErrorModel { text: "Cannot determine home directory"@, cause: None },
        ),
        systemd::unit_report(None, name, unit).error == Some(
            ErrorModel { text: "Cannot determine home directory"@, cause: None },
        ),
        ({
            let lost = OutcomeModel::NotStarted { cause };
            let answer = OutcomeModel::Exited { success, stdout: listing, stderr };
            &&& host.platform is Launchd ==> crate::scheduler::configuration(host, unit.file, lost, other, other).error
                == Some(ErrorModel { text: "Failed to run launchctl list"@, cause: Some(cause) })
            &&& host.platform is Systemd ==> crate::scheduler::configuration(host, unit.file, other, lost, other).error
                == Some(ErrorModel { text: "Failed to check timer status"@, cause: Some(cause) })
            &&& host.platform !is Unsupported && unit.file == FileModel::Unreadable(cause)
                ==> crate::scheduler::configuration(host, unit.file, answer, answer, other).error == Some(
                ErrorModel { text: cause, cause: None },
            )
        }),
{
    schedules::lemma_good_names_are_taken("schedule"@, name);
}

/// The lists of saved workspaces and schedules have a title, and say so where they are empty.
pub proof fn lemma_lists_have_a_title(config: ConfigModel, built_in: Seq<char>)
    ensures
        workspace::registered(config, built_in)[0] == ui::one(""@, ui::span("Registered workspaces"@, Style::Title)),
        config.workspaces.len() == 0 ==> workspace::registered(config, built_in).skip(1) == seq![
            ui::one("  "@, ui::span("(none)"@, Style::Muted)),
        ],
        schedule::registered(config.schedules)[0] == ui::text_line("Registered schedules:"@),
        config.schedules.len() == 0 ==> schedule::registered(config.schedules).skip(1) == seq![
            ui::text_line("  (none)"@),
        ],
{
}

} // verus!
