//! Schedules as launchd jobs on macOS.
use crate::command::{CommandLine, CommandModel};
use crate::error::{Error, ErrorModel};
use crate::names;
use crate::paths;
use crate::plan;
use crate::plan::{FailureModel, OnFailure, Step, StepModel};
use crate::platform;
use crate::platform::{FileModel, FileState, Report, ReportModel};
use crate::plist;
use crate::schedule_names;
use crate::text;
use crate::ui;
use crate::ui::{Line, SpanModel, Style};
use vstd::prelude::*;

verus! {

/// The label of the older, unnamed schedule.
pub open spec fn legacy_label() -> Seq<char> {
    "com.worktree-gc.daily"@
}

/// The label of a schedule.
pub open spec fn label_for(name: Seq<char>) -> Seq<char> {
    "com.worktree-gc."@ + name
}

/// Where launchd looks for the jobs of a person.
pub open spec fn agents_dir(home: Seq<char>) -> Seq<char> {
    paths::joined(home, "Library/LaunchAgents"@)
}

/// The file of the job with that label.
pub open spec fn plist_of(home: Seq<char>, label: Seq<char>) -> Seq<char> {
    paths::joined(agents_dir(home), label + ".plist"@)
}

/// Where launchd looks for the jobs of a person.
pub fn launch_agents_dir(home: &str) -> (r: String)
    ensures
        r@ == agents_dir(home@),
{
    paths::join_path(home, "Library/LaunchAgents")
}

fn plist_at(home: &str, label: &str) -> (r: String)
    ensures
        r@ == plist_of(home@, label@),
{
    let mut file = label.to_owned();
    file.append(".plist");
    paths::join_path(launch_agents_dir(home).as_str(), file.as_str())
}

fn labelled(name: &str) -> (r: String)
    ensures
        r@ == label_for(name@),
{
    let mut label = "com.worktree-gc.".to_owned();
    label.append(name);
    label
}

/// The label of a schedule, where its name is one.
pub fn schedule_label(name: &str) -> (r: Result<String, Error>)
    ensures
        match r {
            Ok(label) => schedule_names::problem(name@) is None && label@ == label_for(name@),
            Err(e) => schedule_names::problem(name@) matches Some(complaint) && e@ == ErrorModel::plain(complaint),
        },
{
    match schedule_names::validate_schedule_name(name) {
        Ok(()) => Ok(labelled(name)),
        Err(e) => Err(e),
    }
}

/// The plist file of a schedule.
pub fn plist_path(home: &str, name: &str) -> (r: Result<String, Error>)
    ensures
        match r {
            Ok(path) => schedule_names::problem(name@) is None && path@ == plist_of(home@, label_for(name@)),
            Err(e) => schedule_names::problem(name@) matches Some(complaint) && e@ == ErrorModel::plain(complaint),
        },
{
    match schedule_label(name) {
        Ok(label) => Ok(plist_at(home, label.as_str())),
        Err(e) => Err(e),
    }
}

/// The plist file of the older, unnamed schedule.
pub fn legacy_plist_path(home: &str) -> (r: String)
    ensures
        r@ == plist_of(home@, legacy_label()),
{
    plist_at(home, "com.worktree-gc.daily")
}

/// `launchctl verb path`.
pub open spec fn launchctl(verb: Seq<char>, path: Seq<char>) -> CommandModel {
    CommandModel { program: "launchctl"@, args: seq![verb, path] }
}

/// `launchctl verb path`.
pub fn launchctl_command(verb: &str, path: &str) -> (r: CommandLine)
    ensures
        r@ == launchctl(verb@, path@),
{
    CommandLine::new("launchctl").arg(verb).arg(path)
}

/// Asks launchd for the jobs that are loaded.
pub fn listing_command() -> (r: CommandLine)
    ensures
        r@ == (CommandModel { program: "launchctl"@, args: seq!["list"@] }),
{
    CommandLine::new("launchctl").arg("list")
}

/// Removes the older, unnamed schedule, where its plist is there.
pub open spec fn legacy_removal(home: Seq<char>, present: Seq<Seq<char>>) -> Seq<StepModel> {
    let legacy = plist_of(home, legacy_label());
    if present.contains(legacy) {
        seq![
            StepModel::Run {
                command: launchctl("unload"@, legacy),
                not_started: None,
                on_failure: FailureModel::Warn("launchctl unload warning"@),
            },
            StepModel::RemoveFile { path: legacy, failure: Some("Failed to remove "@ + legacy) },
        ]
    } else {
        Seq::empty()
    }
}

fn warn_on_unload_failure() -> (r: OnFailure)
    ensures
        r@ == FailureModel::Warn("launchctl unload warning"@),
{
    OnFailure::Warn("launchctl unload warning".to_owned())
}

fn remove_step(path: &str) -> (r: Step)
    ensures
        r@ == (StepModel::RemoveFile { path: path@, failure: Some("Failed to remove "@ + path@) }),
{
    let mut failure = "Failed to remove ".to_owned();
    failure.append(path);
    Step::RemoveFile { path: path.to_owned(), failure: Some(failure) }
}

/// Adds the removal of the older, unnamed schedule, and says whether there is one.
pub fn remove_legacy_launchd_schedule(steps: &mut Vec<Step>, home: &str, present: &Vec<String>) -> (r: bool)
    ensures
        final(steps).deep_view() == old(steps).deep_view() + legacy_removal(home@, present.deep_view()),
        r == present.deep_view().contains(plist_of(home@, legacy_label())),
{
    let legacy = legacy_plist_path(home);
    if !plan::is_present(present, legacy.as_str()) {
        assert(steps.deep_view() =~= old(steps).deep_view() + legacy_removal(home@, present.deep_view()));
        return false;
    }
    names::put(
        steps,
        Step::Run {
            command: launchctl_command("unload", legacy.as_str()),
            not_started: None,
            on_failure: warn_on_unload_failure(),
        },
    );
    names::put(steps, remove_step(legacy.as_str()));
    assert(steps.deep_view() =~= old(steps).deep_view() + legacy_removal(home@, present.deep_view()));
    true
}

/// The files that a job writes its output to.
pub open spec fn output_log(home: Seq<char>, name: Seq<char>, stream: Seq<char>) -> Seq<char> {
    paths::joined(platform::log_dir_of(home), name + stream)
}

fn output_log_path(home: &str, name: &str, stream: &str) -> (r: String)
    ensures
        r@ == output_log(home@, name@, stream@),
{
    let mut file = name.to_owned();
    file.append(stream);
    paths::join_path(platform::log_dir(home).as_str(), file.as_str())
}

/// The plist of a named schedule.
pub open spec fn schedule_plist(
    home: Seq<char>,
    exe: Seq<char>,
    search_path: Seq<char>,
    name: Seq<char>,
    args: Seq<Seq<char>>,
    hour: u8,
    minute: u8,
) -> Seq<char> {
    text::unlines(
        plist::plist_lines(
            label_for(name),
            exe,
            args,
            search_path,
            output_log(home, name, "-launchd-stdout.log"@),
            output_log(home, name, "-launchd-stderr.log"@),
            hour,
            minute,
        ),
    )
}

/// What is done before the plist is written: the directories are made, the older schedule makes
/// room for the one of the usual name, and a job of this name is unloaded.
pub open spec fn preparation(home: Seq<char>, name: Seq<char>, present: Seq<Seq<char>>) -> Seq<StepModel> {
    let plist = plist_of(home, label_for(name));
    seq![
        StepModel::CreateDir { path: agents_dir(home) },
        StepModel::CreateDir { path: platform::log_dir_of(home) },
    ] + if name == "default"@ {
        legacy_removal(home, present)
    } else {
        Seq::empty()
    } + if present.contains(plist) {
        seq![plan::attempt(launchctl("unload"@, plist))]
    } else {
        Seq::empty()
    }
}

/// What is done then: the plist is written and loaded, and the schedule is shown.
pub open spec fn activation(
    plist: Seq<char>,
    content: Seq<char>,
    exe: Seq<char>,
    name: Seq<char>,
    hour: u8,
    minute: u8,
) -> Seq<StepModel> {
    seq![
        plan::written(plist, content),
        plan::demand(launchctl("load"@, plist), "Failed to run launchctl load"@, "launchctl load failed"@),
        StepModel::Show(ui::one(""@, ui::span("✓ Schedule installed (launchd)"@, Style::Success))),
        plan::shown("Name"@, ui::span(name, Style::Name)),
        plan::shown("Plist"@, ui::span(plist, Style::Path)),
        plan::shown("Binary"@, ui::span(exe, Style::Path)),
        plan::shown("Time"@, ui::span(platform::daily(hour as nat, minute as nat), Style::Value)),
    ]
}

/// How a schedule is installed.
pub open spec fn install_plan(
    home: Seq<char>,
    exe: Seq<char>,
    search_path: Seq<char>,
    name: Seq<char>,
    args: Seq<Seq<char>>,
    hour: u8,
    minute: u8,
    present: Seq<Seq<char>>,
) -> Seq<StepModel> {
    preparation(home, name, present) + activation(
        plist_of(home, label_for(name)),
        schedule_plist(home, exe, search_path, name, args, hour, minute),
        exe,
        name,
        hour,
        minute,
    )
}

fn prepare(home: &str, name: &str, plist: &str, present: &Vec<String>) -> (r: Vec<Step>)
    requires
        plist@ == plist_of(home@, label_for(name@)),
    ensures
        r.deep_view() == preparation(home@, name@, present.deep_view()),
{
    let mut steps: Vec<Step> = Vec::new();
    names::put(&mut steps, Step::CreateDir { path: launch_agents_dir(home) });
    names::put(&mut steps, Step::CreateDir { path: platform::log_dir(home) });
    assert(steps.deep_view() =~= seq![
        StepModel::CreateDir { path: agents_dir(home@) },
        StepModel::CreateDir { path: platform::log_dir_of(home@) },
    ]);
    if text::same(name, "default") {
        remove_legacy_launchd_schedule(&mut steps, home, present);
    }
    if plan::is_present(present, plist) {
        names::put(&mut steps, plan::attempt_step(launchctl_command("unload", plist)));
    }
    assert(steps.deep_view() =~= preparation(home@, name@, present.deep_view()));
    steps
}

/// The steps that install a schedule which runs the binary with these arguments. `present` are the
/// files that are there.
pub fn install_with_args(
    home: &str,
    exe: &str,
    search_path: &str,
    name: &str,
    run_args: &Vec<String>,
    hour: u8,
    minute: u8,
    present: &Vec<String>,
) -> (r: Vec<Step>)
    ensures
        r.deep_view() == install_plan(
            home@,
            exe@,
            search_path@,
            name@,
            run_args.deep_view(),
            hour,
            minute,
            present.deep_view(),
        ),
{
    let label = labelled(name);
    let plist = plist_at(home, label.as_str());
    let mut steps = prepare(home, name, plist.as_str(), present);
    let ghost before = steps.deep_view();
    let content = plist::render_launchd_plist(
        label.as_str(),
        exe,
        run_args,
        search_path,
        output_log_path(home, name, "-launchd-stdout.log").as_str(),
        output_log_path(home, name, "-launchd-stderr.log").as_str(),
        hour,
        minute,
    );
    let ghost text = content@;
    names::put(&mut steps, plan::write_step(plist.as_str(), content));
    names::put(
        &mut steps,
        plan::demand_step(
            launchctl_command("load", plist.as_str()),
            "Failed to run launchctl load",
            "launchctl load failed",
        ),
    );
    plan::show(&mut steps, Line::one("", ui::success("✓ Schedule installed (launchd)")));
    plan::show_value(&mut steps, "Name", ui::name(name));
    plan::show_value(&mut steps, "Plist", ui::path(plist.as_str()));
    plan::show_value(&mut steps, "Binary", ui::path(exe));
    plan::show_value(&mut steps, "Time", ui::value(platform::daily_text(hour as u32, minute as u32).as_str()));
    assert(steps.deep_view() =~= before + activation(plist@, text, exe@, name@, hour, minute));
    steps
}

/// How the job of a schedule is removed, where its plist is there.
pub open spec fn job_removal(plist: Seq<char>, name: Seq<char>) -> Seq<StepModel> {
    seq![
        StepModel::Run {
            command: launchctl("unload"@, plist),
            not_started: Some("Failed to run launchctl unload"@),
            on_failure: FailureModel::Warn("launchctl unload warning"@),
        },
        StepModel::RemoveFile { path: plist, failure: Some("Failed to remove "@ + plist) },
        StepModel::Show(ui::one(""@, ui::span("✓ Schedule removed"@, Style::Success))),
        plan::shown("Name"@, ui::span(name, Style::Name)),
        plan::shown("Deleted"@, ui::span(plist, Style::Path)),
    ]
}

/// How a schedule is removed: its job, and with the one of the usual name the older, unnamed one.
pub open spec fn uninstall_plan(home: Seq<char>, name: Seq<char>, present: Seq<Seq<char>>) -> Seq<StepModel> {
    let plist = plist_of(home, label_for(name));
    let own = present.contains(plist);
    let older = name == "default"@ && present.contains(plist_of(home, legacy_label()));
    (if own {
        job_removal(plist, name)
    } else {
        Seq::empty()
    }) + (if older {
        legacy_removal(home, present).push(
            StepModel::Show(ui::one(""@, ui::span("✓ Legacy schedule removed"@, Style::Success))),
        )
    } else {
        Seq::empty()
    }) + (if own || older {
        Seq::empty()
    } else {
        seq![
            StepModel::Show(
                ui::two(
                    ""@,
                    ui::span("No schedule installed"@, Style::Warning),
                    ui::span("(plist not found: "@ + plist + ")"@, Style::Muted),
                ),
            ),
        ]
    })
}

/// The steps that remove a schedule. `present` are the files that are there.
pub fn uninstall(home: &str, name: &str, present: &Vec<String>) -> (r: Vec<Step>)
    ensures
        r.deep_view() == uninstall_plan(home@, name@, present.deep_view()),
{
    let plist = plist_at(home, labelled(name).as_str());
    let mut steps: Vec<Step> = Vec::new();
    let mut removed = false;
    assert(steps.deep_view() =~= Seq::empty());
    if plan::is_present(present, plist.as_str()) {
        names::put(
            &mut steps,
            Step::Run {
                command: launchctl_command("unload", plist.as_str()),
                not_started: Some("Failed to run launchctl unload".to_owned()),
                on_failure: warn_on_unload_failure(),
            },
        );
        names::put(&mut steps, remove_step(plist.as_str()));
        plan::show(&mut steps, Line::one("", ui::success("✓ Schedule removed")));
        plan::show_value(&mut steps, "Name", ui::name(name));
        plan::show_value(&mut steps, "Deleted", ui::path(plist.as_str()));
        assert(steps.deep_view() =~= job_removal(plist@, name@));
        removed = true;
    }
    if text::same(name, "default") {
        if remove_legacy_launchd_schedule(&mut steps, home, present) {
            plan::show(&mut steps, Line::one("", ui::success("✓ Legacy schedule removed")));
            removed = true;
        }
    }
    if !removed {
        let mut note = "(plist not found: ".to_owned();
        note.append(plist.as_str());
        note.append(")");
        plan::show(&mut steps, Line::two("", ui::warning("No schedule installed"), ui::muted(note.as_str())));
    }
    assert(steps.deep_view() =~= uninstall_plan(home@, name@, present.deep_view()));
    steps
}

/// Some line of the listing names the job.
pub open spec fn is_loaded(listing: Seq<char>, label: Seq<char>) -> bool {
    exists|i: int| 0 <= i < text::lines(listing).len() && #[trigger] text::contains(text::lines(listing)[i], label)
}

/// Whether a line of the listing names the job.
pub fn lists(listing: &str, label: &str) -> (r: bool)
    ensures
        r == is_loaded(listing@, label@),
{
    let ls = text::split_lines(listing);
    let mut i: usize = 0;
    while i < ls.len()
        invariant
            ls.deep_view() == text::lines(listing@),
            i <= ls.len(),
            forall|j: int| 0 <= j < i ==> !#[trigger] text::contains(text::lines(listing@)[j], label@),
        decreases ls.len() - i,
    {
        assert(text::lines(listing@)[i as int] == ls@[i as int]@);
        if text::includes(ls[i], label) {
            assert(text::contains(text::lines(listing@)[i as int], label@));
            return true;
        }
        i = i + 1;
    }
    false
}

/// The time of a plist, as a line, where it has one.
pub open spec fn time_lines(content: Seq<char>) -> Seq<Seq<SpanModel>> {
    match plist::time_in(content) {
        Some(time) => seq![ui::two("    "@, ui::label_of("Time"@), ui::span(time, Style::Value))],
        None => Seq::empty(),
    }
}

/// The state of a schedule whose plist is there.
pub open spec fn installed_report(
    name: Seq<char>,
    plist: Seq<char>,
    loaded: bool,
    content: Result<Seq<char>, Seq<char>>,
) -> ReportModel {
    let top = seq![
        ui::two(
            "  "@,
            ui::span(name, Style::Name),
            if loaded {
                ui::span("active"@, Style::Success)
            } else {
                ui::span("installed but not loaded"@, Style::Warning)
            },
        ),
        ui::two("    "@, ui::label_of("Plist"@), ui::span(plist, Style::Path)),
    ];
    match content {
        Err(e) => ReportModel::failed(top, ErrorModel::plain(e)),
        Ok(content) => ReportModel::fine(
            top + time_lines(content) + if loaded {
                Seq::empty()
            } else {
                seq![
                    ui::two(
                        "    "@,
                        ui::label_of("Activate"@),
                        ui::span("launchctl load "@ + plist, Style::Value),
                    ),
                ]
            },
        ),
    }
}

/// The state of one schedule.
pub open spec fn unit_report(home: Option<Seq<char>>, name: Seq<char>, file: FileModel, listing: Seq<char>) -> ReportModel {
    match (schedule_names::problem(name), home) {
        (Some(complaint), _) => ReportModel::failed(Seq::empty(), ErrorModel::plain(complaint)),
        (None, None) => ReportModel::failed(Seq::empty(), ErrorModel::plain(platform::no_home())),
        (None, Some(home)) => {
            let plist = plist_of(home, label_for(name));
            let loaded = is_loaded(listing, label_for(name));
            match file {
                FileModel::Absent => ReportModel::fine(
                    seq![
                        ui::two("  "@, ui::span(name, Style::Name), ui::span("not installed"@, Style::Warning)),
                        ui::two("    "@, ui::label_of("Plist"@), ui::span(plist, Style::Path)),
                    ],
                ),
                FileModel::Unreadable(e) => installed_report(name, plist, loaded, Err(e)),
                FileModel::Content(content) => installed_report(name, plist, loaded, Ok(content)),
            }
        },
    }
}

fn installed_status(name: &str, plist: &str, loaded: bool, content: Result<&str, &str>) -> (r: Report)
    ensures
        r@ == installed_report(
            name@,
            plist@,
            loaded,
            match content {
                Ok(content) => Ok(content@),
                Err(e) => Err(e@),
            },
        ),
{
    let mut lines: Vec<Line> = Vec::new();
    let state = if loaded {
        ui::success("active")
    } else {
        ui::warning("installed but not loaded")
    };
    names::put(&mut lines, Line::two("  ", ui::name(name), state));
    names::put(&mut lines, Line::two("    ", ui::label("Plist"), ui::path(plist)));
    let ghost top = lines.deep_view();
    let content = match content {
        Ok(content) => content,
        Err(e) => return Report { lines, error: Some(Error::new(e.to_owned())) },
    };
    if let Some(time) = plist::extract_plist_time(content) {
        names::put(&mut lines, Line::two("    ", ui::label("Time"), ui::value(time.as_str())));
    }
    assert(lines.deep_view() =~= top + time_lines(content@));
    if !loaded {
        let mut hint = "launchctl load ".to_owned();
        hint.append(plist);
        names::put(&mut lines, Line::two("    ", ui::label("Activate"), ui::value(hint.as_str())));
    }
    Report { lines, error: None }
}

/// The state of one schedule, from what was found of its plist and what launchd lists.
pub fn unit_status(home: Option<&str>, name: &str, file: &FileState, listing: &str) -> (r: Report)
    ensures
        r@ == unit_report(home.deep_view(), name@, file@, listing@),
{
    let label = match schedule_label(name) {
        Ok(label) => label,
        Err(e) => return Report { lines: Vec::new(), error: Some(e) },
    };
    let home = match home {
        Some(home) => home,
        None => return Report {
            lines: Vec::new(),
            error: Some(Error::new("Cannot determine home directory".to_owned())),
        },
    };
    let plist = plist_at(home, label.as_str());
    match file {
        FileState::Absent => {
            let mut lines: Vec<Line> = Vec::new();
            names::put(&mut lines, Line::two("  ", ui::name(name), ui::warning("not installed")));
            names::put(&mut lines, Line::two("    ", ui::label("Plist"), ui::path(plist.as_str())));
            Report { lines, error: None }
        },
        FileState::Unreadable(e) => installed_status(
            name,
            plist.as_str(),
            lists(listing, label.as_str()),
            Err(e.as_str()),
        ),
        FileState::Content(content) => installed_status(
            name,
            plist.as_str(),
            lists(listing, label.as_str()),
            Ok(content.as_str()),
        ),
    }
}

proof fn lemma_joined_stays_on_line(base: Seq<char>, part: Seq<char>)
    requires
        plist::stays_on_line(base),
        plist::stays_on_line(part),
    ensures
        plist::stays_on_line(paths::joined(base, part)),
{
    let path = paths::joined(base, part);
    reveal_strlit("/");
    assert forall|i: int| 0 <= i < path.len() implies path[i] != '\n' by {
        let n = base.len() as int;
        if paths::is_absolute(part) {
        } else if i < n {
            assert(path[i] == base[i]);
        } else if n == 0 || base.last() == '/' {
            assert(path[i] == part[i - n]);
        } else if i > n {
            assert(path[i] == part[i - n - 1]);
        }
    }
}

proof fn lemma_sum_stays_on_line(a: Seq<char>, b: Seq<char>)
    requires
        plist::stays_on_line(a),
        plist::stays_on_line(b),
    ensures
        plist::stays_on_line(a + b),
{
    assert forall|i: int| 0 <= i < (a + b).len() implies (a + b)[i] != '\n' by {
        if i >= a.len() {
            assert((a + b)[i] == b[i - a.len()]);
        }
    }
}

/// The state of a schedule shows the time that it was installed with, where the home directory, the
/// binary, the search path and the arguments hold no line feed.
pub proof fn lemma_installed_schedule_shows_its_time(
    home: Seq<char>,
    exe: Seq<char>,
    search_path: Seq<char>,
    name: Seq<char>,
    args: Seq<Seq<char>>,
    hour: u8,
    minute: u8,
)
    requires
        plist::stays_on_line(home),
        plist::stays_on_line(exe),
        plist::stays_on_line(search_path),
        forall|i: int| 0 <= i < args.len() ==> plist::stays_on_line(#[trigger] args[i]),
        schedule_names::problem(name) is None,
    ensures
        plist::time_in(schedule_plist(home, exe, search_path, name, args, hour, minute)) == Some(
            platform::daily(hour as nat, minute as nat),
        ),
{
    crate::defaults::lemma_accepted_names("schedule"@, name);
    assert forall|i: int| 0 <= i < name.len() implies name[i] != '\n' by {
        assert(crate::defaults::may_stand_in_name(name[i]));
    }
    reveal_strlit("com.worktree-gc.");
    reveal_strlit(".local/share/worktree-gc");
    reveal_strlit("-launchd-stdout.log");
    reveal_strlit("-launchd-stderr.log");
    lemma_sum_stays_on_line("com.worktree-gc."@, name);
    lemma_sum_stays_on_line(name, "-launchd-stdout.log"@);
    lemma_sum_stays_on_line(name, "-launchd-stderr.log"@);
    lemma_joined_stays_on_line(home, ".local/share/worktree-gc"@);
    let logs = platform::log_dir_of(home);
    lemma_joined_stays_on_line(logs, name + "-launchd-stdout.log"@);
    lemma_joined_stays_on_line(logs, name + "-launchd-stderr.log"@);
    plist::lemma_plist_tells_its_time(
        label_for(name),
        exe,
        args,
        search_path,
        output_log(home, name, "-launchd-stdout.log"@),
        output_log(home, name, "-launchd-stderr.log"@),
        hour,
        minute,
    );
}

} // verus!
