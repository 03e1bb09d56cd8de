//! The single, unnamed schedule: a daily run over one directory.
use crate::command::{Outcome, OutcomeModel};
use crate::error::{Error, ErrorModel};
use crate::launchd;
use crate::names;
use crate::paths;
use crate::plan;
use crate::plan::{FailureModel, OnFailure, Step, StepModel};
use crate::platform;
use crate::platform::{FileModel, FileState, Host, HostModel, Platform, Report, ReportModel};
use crate::plist;
use crate::systemd;
use crate::text;
use crate::ui;
use crate::ui::{Line, Menu, MenuModel, SpanModel, Style};
use vstd::prelude::*;

verus! {

/// The log file of the daily run.
pub open spec fn log_file_of(home: Seq<char>) -> Seq<char> {
    paths::joined(platform::log_dir_of(home), "gc.jsonl"@)
}

fn log_file_path(home: &str) -> (r: String)
    ensures
        r@ == log_file_of(home@),
{
    paths::join_path(platform::log_dir(home).as_str(), "gc.jsonl")
}

/// The arguments of the daily run.
pub open spec fn run_args(scan_dir: Seq<char>, log_file: Seq<char>) -> Seq<Seq<char>> {
    seq!["run"@, "--dir"@, scan_dir, "--log-file"@, log_file]
}

/// A plain line.
pub open spec fn said(text: Seq<char>) -> StepModel {
    StepModel::Show(ui::text_line(text))
}

fn say(steps: &mut Vec<Step>, label: &str, value: &str)
    ensures
        final(steps).deep_view() == old(steps).deep_view().push(said(label@ + value@)),
{
    let mut line = label.to_owned();
    line.append(value);
    plan::show(steps, Line::text(line.as_str()));
}

fn say_words(steps: &mut Vec<Step>, words: &str)
    ensures
        final(steps).deep_view() == old(steps).deep_view().push(said(words@)),
{
    plan::show(steps, Line::text(words));
}

/// What is shown at the end of an installation.
pub open spec fn closing(exe: Seq<char>, scan_dir: Seq<char>, hour: u8, minute: u8, log_file: Seq<char>) -> Seq<StepModel> {
    seq![
        said("  Binary:   "@ + exe),
        said("  Scan dir: "@ + scan_dir),
        said("  Time:     "@ + platform::daily(hour as nat, minute as nat)),
        said("  Log:      "@ + log_file),
    ]
}

fn put_closing(steps: &mut Vec<Step>, exe: &str, scan_dir: &str, hour: u8, minute: u8, log_file: &str)
    ensures
        final(steps).deep_view() == old(steps).deep_view() + closing(exe@, scan_dir@, hour, minute, log_file@),
{
    say(steps, "  Binary:   ", exe);
    say(steps, "  Scan dir: ", scan_dir);
    say(steps, "  Time:     ", platform::daily_text(hour as u32, minute as u32).as_str());
    say(steps, "  Log:      ", log_file);
    assert(steps.deep_view() =~= old(steps).deep_view() + closing(exe@, scan_dir@, hour, minute, log_file@));
}

/// The plist of the daily run.
pub open spec fn daily_plist(
    home: Seq<char>,
    exe: Seq<char>,
    search_path: Seq<char>,
    scan_dir: Seq<char>,
    hour: u8,
    minute: u8,
) -> Seq<char> {
    text::unlines(
        plist::plist_lines(
            launchd::legacy_label(),
            exe,
            run_args(scan_dir, log_file_of(home)),
            search_path,
            paths::joined(platform::log_dir_of(home), "launchd-stdout.log"@),
            paths::joined(platform::log_dir_of(home), "launchd-stderr.log"@),
            hour,
            minute,
        ),
    )
}

/// How the daily run is installed under launchd.
pub open spec fn launchd_plan(
    home: Seq<char>,
    exe: Seq<char>,
    search_path: Seq<char>,
    scan_dir: Seq<char>,
    hour: u8,
    minute: u8,
    present: Seq<Seq<char>>,
) -> Seq<StepModel> {
    let plist = launchd::plist_of(home, launchd::legacy_label());
    seq![
        StepModel::CreateDir { path: launchd::agents_dir(home) },
        StepModel::CreateDir { path: platform::log_dir_of(home) },
    ] + systemd::only_if(
        present.contains(plist),
        seq![plan::attempt(launchd::launchctl("unload"@, plist))],
    ) + seq![
        plan::written(plist, daily_plist(home, exe, search_path, scan_dir, hour, minute)),
        plan::demand(
            launchd::launchctl("load"@, plist),
            "Failed to run launchctl load"@,
            "launchctl load failed"@,
        ),
        said("✓ Schedule installed (launchd)"@),
        said("  Plist:    "@ + plist),
    ] + closing(exe, scan_dir, hour, minute, log_file_of(home))
}

fn put_run_args(scan_dir: &str, log_file: &str) -> (r: Vec<String>)
    ensures
        r.deep_view() == run_args(scan_dir@, log_file@),
{
    let mut args: Vec<String> = Vec::new();
    names::put(&mut args, "run".to_owned());
    names::put(&mut args, "--dir".to_owned());
    names::put(&mut args, scan_dir.to_owned());
    names::put(&mut args, "--log-file".to_owned());
    names::put(&mut args, log_file.to_owned());
    assert(args.deep_view() =~= run_args(scan_dir@, log_file@));
    args
}

fn install_launchd(
    home: &str,
    exe: &str,
    search_path: &str,
    scan_dir: &str,
    hour: u8,
    minute: u8,
    present: &Vec<String>,
) -> (r: Vec<Step>)
    ensures
        r.deep_view() == launchd_plan(home@, exe@, search_path@, scan_dir@, hour, minute, present.deep_view()),
{
    let plist = launchd::legacy_plist_path(home);
    let log_dir = platform::log_dir(home);
    let log_file = log_file_path(home);
    let content = plist::render_launchd_plist(
        "com.worktree-gc.daily",
        exe,
        &put_run_args(scan_dir, log_file.as_str()),
        search_path,
        paths::join_path(log_dir.as_str(), "launchd-stdout.log").as_str(),
        paths::join_path(log_dir.as_str(), "launchd-stderr.log").as_str(),
        hour,
        minute,
    );
    let mut steps: Vec<Step> = Vec::new();
    names::put(&mut steps, Step::CreateDir { path: launchd::launch_agents_dir(home) });
    names::put(&mut steps, Step::CreateDir { path: log_dir });
    if plan::is_present(present, plist.as_str()) {
        names::put(&mut steps, plan::attempt_step(launchd::launchctl_command("unload", plist.as_str())));
    }
    names::put(&mut steps, plan::write_step(plist.as_str(), content));
    names::put(
        &mut steps,
        plan::demand_step(
            launchd::launchctl_command("load", plist.as_str()),
            "Failed to run launchctl load",
            "launchctl load failed",
        ),
    );
    say_words(&mut steps, "✓ Schedule installed (launchd)");
    say(&mut steps, "  Plist:    ", plist.as_str());
    put_closing(&mut steps, exe, scan_dir, hour, minute, log_file.as_str());
    assert(steps.deep_view() =~= launchd_plan(
        home@,
        exe@,
        search_path@,
        scan_dir@,
        hour,
        minute,
        present.deep_view(),
    ));
    steps
}

/// The command of the daily run, as its service has it.
pub open spec fn plain_command(exe: Seq<char>, scan_dir: Seq<char>, log_file: Seq<char>) -> Seq<char> {
    exe + " run --dir "@ + scan_dir + " --log-file "@ + log_file
}

/// How the daily run is installed under systemd.
pub open spec fn systemd_plan(home: Seq<char>, exe: Seq<char>, scan_dir: Seq<char>, hour: u8, minute: u8) -> Seq<StepModel> {
    let stem = systemd::legacy_stem();
    let svc = systemd::service_of(home, stem);
    let tmr = systemd::timer_of(home, stem);
    systemd::directories(home) + systemd::halt(stem) + systemd::activation(
        svc,
        tmr,
        text::unlines(
            systemd::service_lines(
                "Clean up git worktrees whose PRs have been merged"@,
                plain_command(exe, scan_dir, log_file_of(home)),
            ),
        ),
        text::unlines(systemd::timer_lines("Daily cleanup of merged git worktrees"@, hour, minute)),
        stem,
    ) + seq![
        said("✓ Schedule installed (systemd)"@),
        said("  Service:  "@ + svc),
        said("  Timer:    "@ + tmr),
    ] + closing(exe, scan_dir, hour, minute, log_file_of(home))
}

fn install_systemd(home: &str, exe: &str, scan_dir: &str, hour: u8, minute: u8) -> (r: Vec<Step>)
    ensures
        r.deep_view() == systemd_plan(home@, exe@, scan_dir@, hour, minute),
{
    let svc = systemd::legacy_service_path(home);
    let tmr = systemd::legacy_timer_path(home);
    let log_file = log_file_path(home);
    let mut command = exe.to_owned();
    command.append(" run --dir ");
    command.append(scan_dir);
    command.append(" --log-file ");
    command.append(log_file.as_str());
    let service = systemd::service_text("Clean up git worktrees whose PRs have been merged", command.as_str());
    let timer = systemd::timer_text("Daily cleanup of merged git worktrees", hour, minute);
    let mut steps: Vec<Step> = Vec::new();
    systemd::put_directories(&mut steps, home);
    systemd::put_halt(&mut steps, "worktree-gc");
    systemd::put_activation(&mut steps, svc.as_str(), tmr.as_str(), service, timer, "worktree-gc");
    say_words(&mut steps, "✓ Schedule installed (systemd)");
    say(&mut steps, "  Service:  ", svc.as_str());
    say(&mut steps, "  Timer:    ", tmr.as_str());
    put_closing(&mut steps, exe, scan_dir, hour, minute, log_file.as_str());
    assert(steps.deep_view() =~= systemd_plan(home@, exe@, scan_dir@, hour, minute));
    steps
}

/// How the daily run is installed, or why it is not.
pub open spec fn installation(
    host: HostModel,
    scan_dir: Seq<char>,
    hour: u8,
    minute: u8,
    present: Seq<Seq<char>>,
) -> Result<Seq<StepModel>, ErrorModel> {
    if host.platform is Unsupported {
        Err(
            ErrorModel::plain(
                "Scheduled execution is not supported on this platform. Supported: macOS (launchd), Linux (systemd)."@,
            ),
        )
    } else if let Err(cause) = host.exe {
        Err(ErrorModel::caused(platform::no_exe(), cause))
    } else if host.home is None {
        Err(ErrorModel::plain(platform::no_home()))
    } else if host.platform is Launchd {
        Ok(launchd_plan(host.home->0, host.exe->Ok_0, host.search_path, scan_dir, hour, minute, present))
    } else {
        Ok(systemd_plan(host.home->0, host.exe->Ok_0, scan_dir, hour, minute))
    }
}

/// The steps that install the daily run. `present` are the files that are there.
pub fn install(host: &Host, scan_dir: &str, hour: u8, minute: u8, present: &Vec<String>) -> (r: Result<Vec<Step>, Error>)
    ensures
        plan::plan_model(r) == installation(host@, scan_dir@, hour, minute, present.deep_view()),
{
    if let Platform::Unsupported = host.platform {
        return Err(
            Error::new(
                "Scheduled execution is not supported on this platform. Supported: macOS (launchd), Linux (systemd).".to_owned(),
            ),
        );
    }
    let exe = match host.binary_path() {
        Ok(exe) => exe,
        Err(e) => return Err(e),
    };
    let home = match host.home_dir() {
        Ok(home) => home,
        Err(e) => return Err(e),
    };
    if let Platform::Launchd = host.platform {
        Ok(install_launchd(home, exe, host.search_path.as_str(), scan_dir, hour, minute, present))
    } else {
        Ok(install_systemd(home, exe, scan_dir, hour, minute))
    }
}

/// How the daily run is removed under launchd.
pub open spec fn launchd_removal(home: Seq<char>, present: Seq<Seq<char>>) -> Seq<StepModel> {
    let plist = launchd::plist_of(home, launchd::legacy_label());
    if present.contains(plist) {
        seq![
            StepModel::Run {
                command: launchd::launchctl("unload"@, plist),
                not_started: Some("Failed to run launchctl unload"@),
                on_failure: FailureModel::Warn("launchctl unload warning"@),
            },
            StepModel::RemoveFile { path: plist, failure: Some("Failed to remove "@ + plist) },
            said("✓ Schedule removed"@),
            said("  Deleted: "@ + plist),
        ]
    } else {
        seq![said("No schedule installed (plist not found)"@)]
    }
}

/// How the daily run is removed, or why it is not.
pub open spec fn removal(host: HostModel, present: Seq<Seq<char>>) -> Result<Seq<StepModel>, ErrorModel> {
    match (host.platform, host.home) {
        (Platform::Unsupported, _) => Err(ErrorModel::plain("Scheduled execution is not supported on this platform."@)),
        (_, None) => Err(ErrorModel::plain(platform::no_home())),
        (Platform::Launchd, Some(home)) => Ok(launchd_removal(home, present)),
        (Platform::Systemd, Some(home)) => Ok(
            if systemd::has_legacy(home, present) {
                systemd::legacy_removal(home, present).push(said("✓ Schedule removed"@))
            } else {
                seq![said("No schedule installed (unit files not found)"@)]
            },
        ),
    }
}

fn uninstall_launchd(home: &str, present: &Vec<String>) -> (r: Vec<Step>)
    ensures
        r.deep_view() == launchd_removal(home@, present.deep_view()),
{
    let plist = launchd::legacy_plist_path(home);
    let mut steps: Vec<Step> = Vec::new();
    if !plan::is_present(present, plist.as_str()) {
        say_words(&mut steps, "No schedule installed (plist not found)");
        assert(steps.deep_view() =~= launchd_removal(home@, present.deep_view()));
        return steps;
    }
    names::put(
        &mut steps,
        Step::Run {
            command: launchd::launchctl_command("unload", plist.as_str()),
            not_started: Some("Failed to run launchctl unload".to_owned()),
            on_failure: OnFailure::Warn("launchctl unload warning".to_owned()),
        },
    );
    let mut failure = "Failed to remove ".to_owned();
    failure.append(plist.as_str());
    names::put(&mut steps, Step::RemoveFile { path: plist.clone(), failure: Some(failure) });
    say_words(&mut steps, "✓ Schedule removed");
    say(&mut steps, "  Deleted: ", plist.as_str());
    assert(steps.deep_view() =~= launchd_removal(home@, present.deep_view()));
    steps
}

/// The steps that remove the daily run. `present` are the files that are there.
pub fn uninstall(host: &Host, present: &Vec<String>) -> (r: Result<Vec<Step>, Error>)
    ensures
        plan::plan_model(r) == removal(host@, present.deep_view()),
{
    if let Platform::Unsupported = host.platform {
        return Err(Error::new("Scheduled execution is not supported on this platform.".to_owned()));
    }
    let home = match host.home_dir() {
        Ok(home) => home,
        Err(e) => return Err(e),
    };
    if let Platform::Launchd = host.platform {
        return Ok(uninstall_launchd(home, present));
    }
    let mut steps: Vec<Step> = Vec::new();
    assert(steps.deep_view() =~= Seq::empty());
    if systemd::remove_legacy_systemd_schedule(&mut steps, home, present) {
        assert(steps.deep_view() =~= systemd::legacy_removal(home@, present.deep_view()));
        say_words(&mut steps, "✓ Schedule removed");
    } else {
        assert(steps.deep_view() =~= Seq::empty());
        say_words(&mut steps, "No schedule installed (unit files not found)");
        assert(steps.deep_view() =~= seq![said("No schedule installed (unit files not found)"@)]);
    }
    Ok(steps)
}

/// Whether the daily run is installed.
pub open spec fn installed(host: HostModel, present: Seq<Seq<char>>) -> bool {
    match (host.platform, host.home) {
        (Platform::Launchd, Some(home)) => present.contains(launchd::plist_of(home, launchd::legacy_label())),
        (Platform::Systemd, Some(home)) => present.contains(systemd::timer_of(home, systemd::legacy_stem())),
        _ => false,
    }
}

/// Whether the daily run is installed.
pub fn is_installed(host: &Host, present: &Vec<String>) -> (r: bool)
    ensures
        r == installed(host@, present.deep_view()),
{
    match (&host.platform, &host.home) {
        (Platform::Launchd, Some(home)) => plan::is_present(
            present,
            launchd::legacy_plist_path(home.as_str()).as_str(),
        ),
        (Platform::Systemd, Some(home)) => plan::is_present(
            present,
            systemd::legacy_timer_path(home.as_str()).as_str(),
        ),
        _ => false,
    }
}

/// A line that says nothing of a missing value.
pub open spec fn line_of(label: Seq<char>, value: Option<Seq<char>>) -> Seq<Seq<SpanModel>> {
    match value {
        Some(value) => seq![ui::text_line(label + value)],
        None => Seq::empty(),
    }
}

fn put_line(lines: &mut Vec<Line>, label: &str, value: &str)
    ensures
        final(lines).deep_view() == old(lines).deep_view().push(ui::text_line(label@ + value@)),
{
    let mut line = label.to_owned();
    line.append(value);
    ui::put_text(lines, line.as_str());
}

/// The two lines above the state of the daily run.
pub open spec fn heading(platform: Platform) -> Seq<Seq<SpanModel>> {
    seq![
        ui::text_line("Schedule configuration:"@),
        ui::text_line("  Scheduler: "@ + platform::scheduler_word(platform)),
    ]
}

/// The state of the daily run under launchd, where its plist is there.
pub open spec fn launchd_state(
    plist: Seq<char>,
    listing: OutcomeModel,
    content: Result<Seq<char>, Seq<char>>,
) -> ReportModel {
    match listing {
        OutcomeModel::NotStarted { cause } => ReportModel::failed(
            Seq::empty(),
            ErrorModel::caused("Failed to run launchctl list"@, cause),
        ),
        OutcomeModel::Exited { stdout, .. } => {
            let loaded = launchd::is_loaded(stdout, launchd::legacy_label());
            let top = seq![
                ui::text_line(
                    "  Status:    "@ + if loaded {
                        "active"@
                    } else {
                        "installed but not loaded"@
                    },
                ),
                ui::text_line("  Plist:     "@ + plist),
            ];
            match content {
                Err(e) => ReportModel::failed(top, ErrorModel::plain(e)),
                Ok(content) => ReportModel::fine(
                    top + line_of("  Time:      "@, plist::time_in(content)) + line_of(
                        "  Activate:  launchctl load "@,
                        if loaded {
                            None
                        } else {
                            Some(plist)
                        },
                    ),
                ),
            }
        },
    }
}

/// The state of the daily run under systemd, where its timer file is there.
pub open spec fn systemd_state(
    svc: Seq<char>,
    tmr: Seq<char>,
    active: OutcomeModel,
    timers: OutcomeModel,
    content: Result<Seq<char>, Seq<char>>,
) -> ReportModel {
    match active {
        OutcomeModel::NotStarted { cause } => ReportModel::failed(
            Seq::empty(),
            ErrorModel::caused("Failed to check timer status"@, cause),
        ),
        OutcomeModel::Exited { stdout, .. } => {
            let top = seq![
                ui::text_line("  Status:    "@ + text::trim(stdout)),
                ui::text_line("  Service:   "@ + svc),
                ui::text_line("  Timer:     "@ + tmr),
            ];
            match content {
                Err(e) => ReportModel::failed(top, ErrorModel::plain(e)),
                Ok(content) => ReportModel::fine(
                    top + line_of("  Schedule:  "@, systemd::calendar_in(text::lines(content))) + line_of(
                        "  Next run:  "@,
                        systemd::next_run(timers),
                    ),
                ),
            }
        },
    }
}

/// What is printed about the daily run.
pub open spec fn configuration(
    host: HostModel,
    file: FileModel,
    listing: OutcomeModel,
    active: OutcomeModel,
    timers: OutcomeModel,
) -> ReportModel {
    let content = match file {
        FileModel::Unreadable(e) => Err(e),
        FileModel::Content(content) => Ok(content),
        FileModel::Absent => Ok(Seq::empty()),
    };
    match (host.platform, host.home) {
        (Platform::Unsupported, _) => ReportModel::fine(
            heading(host.platform).push(ui::text_line("  Status:    not supported on this platform"@)),
        ),
        (_, None) => ReportModel::failed(Seq::empty(), ErrorModel::plain(platform::no_home())),
        (Platform::Launchd, Some(home)) => {
            let plist = launchd::plist_of(home, launchd::legacy_label());
            if file is Absent {
                ReportModel::fine(
                    heading(host.platform) + seq![
                        ui::text_line("  Status:    not installed"@),
                        ui::text_line("  Plist:     "@ + plist),
                    ],
                )
            } else {
                launchd_state(plist, listing, content).under(heading(host.platform))
            }
        },
        (Platform::Systemd, Some(home)) => {
            let svc = systemd::service_of(home, systemd::legacy_stem());
            let tmr = systemd::timer_of(home, systemd::legacy_stem());
            if file is Absent {
                ReportModel::fine(
                    heading(host.platform) + seq![
                        ui::text_line("  Status:    not installed"@),
                        ui::text_line("  Service:   "@ + svc),
                        ui::text_line("  Timer:     "@ + tmr),
                    ],
                )
            } else {
                systemd_state(svc, tmr, active, timers, content).under(heading(host.platform))
            }
        },
    }
}

fn launchd_report(lines: Vec<Line>, plist: &str, listing: &Outcome, content: Result<&str, &str>) -> (r: Report)
    ensures
        r@ == launchd_state(
            plist@,
            listing@,
            match content {
                Ok(content) => Ok(content@),
                Err(e) => Err(e@),
            },
        ).under(lines.deep_view()),
{
    let ghost before = lines.deep_view();
    let mut lines = lines;
    match listing {
        Outcome::NotStarted { cause } => {
            assert(before + Seq::<Seq<SpanModel>>::empty() =~= before);
            Report { lines, error: Some(Error::caused_by("Failed to run launchctl list".to_owned(), cause.clone())) }
        },
        Outcome::Exited { stdout, .. } => {
            let loaded = launchd::lists(stdout.as_str(), "com.worktree-gc.daily");
            put_line(&mut lines, "  Status:    ", if loaded { "active" } else { "installed but not loaded" });
            put_line(&mut lines, "  Plist:     ", plist);
            let content = match content {
                Ok(content) => content,
                Err(e) => return Report { lines, error: Some(Error::new(e.to_owned())) },
            };
            if let Some(time) = plist::extract_plist_time(content) {
                put_line(&mut lines, "  Time:      ", time.as_str());
            }
            if !loaded {
                put_line(&mut lines, "  Activate:  launchctl load ", plist);
            }
            Report { lines, error: None }
        },
    }
}

fn systemd_report(
    lines: Vec<Line>,
    svc: &str,
    tmr: &str,
    active: &Outcome,
    timers: &Outcome,
    content: Result<&str, &str>,
) -> (r: Report)
    ensures
        r@ == systemd_state(
            svc@,
            tmr@,
            active@,
            timers@,
            match content {
                Ok(content) => Ok(content@),
                Err(e) => Err(e@),
            },
        ).under(lines.deep_view()),
{
    let ghost before = lines.deep_view();
    let mut lines = lines;
    match active {
        Outcome::NotStarted { cause } => {
            assert(before + Seq::<Seq<SpanModel>>::empty() =~= before);
            Report { lines, error: Some(Error::caused_by("Failed to check timer status".to_owned(), cause.clone())) }
        },
        Outcome::Exited { stdout, .. } => {
            put_line(&mut lines, "  Status:    ", text::trimmed(stdout.as_str()));
            put_line(&mut lines, "  Service:   ", svc);
            put_line(&mut lines, "  Timer:     ", tmr);
            let content = match content {
                Ok(content) => content,
                Err(e) => return Report { lines, error: Some(Error::new(e.to_owned())) },
            };
            if let Some(schedule) = systemd::extract_systemd_timer_schedule(content) {
                put_line(&mut lines, "  Schedule:  ", schedule.as_str());
            }
            if let Some(next) = systemd::next_run_text(timers) {
                put_line(&mut lines, "  Next run:  ", next.as_str());
            }
            Report { lines, error: None }
        },
    }
}

/// What is printed about the daily run, from what was found of its plist or timer file and what the
/// scheduler answered.
pub fn print_config(
    host: &Host,
    file: &FileState,
    listing: &Outcome,
    active: &Outcome,
    timers: &Outcome,
) -> (r: Report)
    ensures
        r@ == configuration(host@, file@, listing@, active@, timers@),
{
    let mut lines: Vec<Line> = Vec::new();
    let mut home: &str = "";
    if let Platform::Unsupported = host.platform {
    } else {
        home = match host.home_dir() {
            Ok(home) => home,
            Err(e) => return Report { lines, error: Some(e) },
        };
    }
    ui::put_text(&mut lines, "Schedule configuration:");
    put_line(&mut lines, "  Scheduler: ", platform::scheduler_name(host.platform));
    assert(lines.deep_view() =~= heading(host.platform));
    let content: Result<&str, &str> = match file {
        FileState::Absent => Ok(""),
        FileState::Unreadable(e) => Err(e.as_str()),
        FileState::Content(content) => Ok(content.as_str()),
    };
    let absent = match file {
        FileState::Absent => true,
        _ => false,
    };
    match host.platform {
        Platform::Unsupported => {
            ui::put_text(&mut lines, "  Status:    not supported on this platform");
            Report { lines, error: None }
        },
        Platform::Launchd => {
            let plist = launchd::legacy_plist_path(home);
            if absent {
                ui::put_text(&mut lines, "  Status:    not installed");
                put_line(&mut lines, "  Plist:     ", plist.as_str());
                return Report { lines, error: None };
            }
            launchd_report(lines, plist.as_str(), listing, content)
        },
        Platform::Systemd => {
            let svc = systemd::legacy_service_path(home);
            let tmr = systemd::legacy_timer_path(home);
            if absent {
                ui::put_text(&mut lines, "  Status:    not installed");
                put_line(&mut lines, "  Service:   ", svc.as_str());
                put_line(&mut lines, "  Timer:     ", tmr.as_str());
                return Report { lines, error: None };
            }
            systemd_report(lines, svc.as_str(), tmr.as_str(), active, timers, content)
        },
    }
}

/// What the wizard asks.
#[derive(Debug, Clone, Copy, PartialEq, Eq, Structural)]
pub enum Question {
    /// Which of the choices of [`wizard_menu`].
    Menu,
    ConfirmRemoval,
    ConfirmSetup,
    /// The directory and the time.
    Settings,
    ConfirmInstall,
}

/// What a person answers.
#[derive(Debug, Clone, Copy, PartialEq, Eq, Structural)]
pub enum Answer {
    Selected(usize),
    Confirmed(bool),
    Given,
}

/// How the wizard goes on.
#[derive(Debug, Clone, Copy, PartialEq, Eq, Structural)]
pub enum WizardMove {
    Ask(Question),
    Install,
    Uninstall,
    Cancel,
}

/// How the wizard goes on after an answer. One that does not belong to the question is not taken.
pub open spec fn next_move(installed: bool, question: Question, answer: Answer) -> WizardMove {
    match (question, answer) {
        (Question::Menu, Answer::Selected(choice)) => if choice == 0 {
            WizardMove::Ask(Question::Settings)
        } else if choice == 1 {
            WizardMove::Ask(Question::ConfirmRemoval)
        } else {
            WizardMove::Cancel
        },
        (Question::ConfirmRemoval, Answer::Confirmed(yes)) => if yes {
            WizardMove::Uninstall
        } else {
            WizardMove::Cancel
        },
        (Question::ConfirmSetup, Answer::Confirmed(yes)) => if yes {
            WizardMove::Ask(Question::Settings)
        } else {
            WizardMove::Cancel
        },
        (Question::Settings, Answer::Given) => if installed {
            WizardMove::Install
        } else {
            WizardMove::Ask(Question::ConfirmInstall)
        },
        (Question::ConfirmInstall, Answer::Confirmed(yes)) => if yes {
            WizardMove::Install
        } else {
            WizardMove::Cancel
        },
        _ => WizardMove::Ask(question),
    }
}

/// The wizard begins with its menu where the schedule is installed, and otherwise asks whether to set
/// it up.
pub open spec fn opening_question(installed: bool) -> Question {
    if installed {
        Question::Menu
    } else {
        Question::ConfirmSetup
    }
}

/// What the wizard asks first: what to do with the daily run, or whether to set one up.
pub fn first_question(installed: bool) -> (r: Question)
    ensures
        r == opening_question(installed),
{
    if installed {
        Question::Menu
    } else {
        Question::ConfirmSetup
    }
}

/// How the wizard goes on after an answer.
pub fn interactive_wizard(installed: bool, question: Question, answer: Answer) -> (r: WizardMove)
    ensures
        r == next_move(installed, question, answer),
{
    match (question, answer) {
        (Question::Menu, Answer::Selected(choice)) => if choice == 0 {
            WizardMove::Ask(Question::Settings)
        } else if choice == 1 {
            WizardMove::Ask(Question::ConfirmRemoval)
        } else {
            WizardMove::Cancel
        },
        (Question::ConfirmRemoval, Answer::Confirmed(true)) => WizardMove::Uninstall,
        (Question::ConfirmSetup, Answer::Confirmed(true)) => WizardMove::Ask(Question::Settings),
        (Question::Settings, Answer::Given) => if installed {
            WizardMove::Install
        } else {
            WizardMove::Ask(Question::ConfirmInstall)
        },
        (Question::ConfirmInstall, Answer::Confirmed(true)) => WizardMove::Install,
        (Question::ConfirmRemoval | Question::ConfirmSetup | Question::ConfirmInstall, Answer::Confirmed(false)) => {
            WizardMove::Cancel
        },
        _ => WizardMove::Ask(question),
    }
}

/// The wizard removes only what a person has agreed to remove, and installs where nothing is
/// installed only after a person has agreed to the summary.
pub proof fn lemma_wizard_acts_on_agreement(installed: bool, question: Question, answer: Answer)
    ensures
        next_move(installed, question, answer) is Uninstall ==> question is ConfirmRemoval && answer
            == Answer::Confirmed(true),
        next_move(installed, question, answer) is Install && !installed ==> question is ConfirmInstall && answer
            == Answer::Confirmed(true),
{
}

/// The lines above the wizard.
pub open spec fn wizard_heading(os: Seq<char>, platform: Platform) -> Seq<Seq<SpanModel>> {
    seq![
        ui::blank(),
        ui::one("  "@, ui::span("⏰ worktree-gc scheduler"@, Style::Bold)),
        ui::one(
            "  "@,
            ui::span("   Platform: "@ + os + " ("@ + platform::scheduler_word(platform) + ")"@, Style::Muted),
        ),
        ui::blank(),
    ]
}

/// The lines above the wizard. `os` is the name of the operating system.
pub fn wizard_heading_lines(os: &str, platform: Platform) -> (r: Vec<Line>)
    ensures
        r.deep_view() == wizard_heading(os@, platform),
{
    let mut lines: Vec<Line> = Vec::new();
    ui::put_blank(&mut lines);
    names::put(&mut lines, Line::one("  ", ui::bold("⏰ worktree-gc scheduler")));
    let mut about = "   Platform: ".to_owned();
    about.append(os);
    about.append(" (");
    about.append(platform::scheduler_name(platform));
    about.append(")");
    names::put(&mut lines, Line::one("  ", ui::muted(about.as_str())));
    ui::put_blank(&mut lines);
    assert(lines.deep_view() =~= wizard_heading(os@, platform));
    lines
}

/// The choices where the daily run is installed.
pub fn wizard_menu() -> (r: Menu)
    ensures
        r@ == (MenuModel {
            heading: Seq::empty(),
            prompt: "What would you like to do?"@,
            choices: seq!["Update schedule (change time or directory)"@, "Remove schedule"@, "Cancel"@],
            default: 0,
        }),
{
    let mut choices: Vec<String> = Vec::new();
    names::put(&mut choices, "Update schedule (change time or directory)".to_owned());
    names::put(&mut choices, "Remove schedule".to_owned());
    names::put(&mut choices, "Cancel".to_owned());
    assert(choices.deep_view() =~= seq![
        "Update schedule (change time or directory)"@,
        "Remove schedule"@,
        "Cancel"@,
    ]);
    Menu { heading: Vec::new(), prompt: "What would you like to do?".to_owned(), choices, default: 0 }
}

/// What is printed before the daily run is installed.
pub open spec fn summary(dir: Seq<char>, hour: u8, minute: u8, platform: Platform) -> Seq<Seq<SpanModel>> {
    seq![
        ui::blank(),
        ui::one("  "@, ui::span("Summary:"@, Style::Bold)),
        ui::one("  Scan directory: "@, ui::span(dir, Style::Value)),
        ui::one("  Run daily at:   "@, ui::span(platform::clock(hour as nat, minute as nat), Style::Value)),
        ui::one("  Scheduler:      "@, ui::span(platform::scheduler_word(platform), Style::Value)),
        ui::blank(),
    ]
}

/// What is printed before the daily run is installed.
pub fn summary_lines(dir: &str, hour: u8, minute: u8, platform: Platform) -> (r: Vec<Line>)
    ensures
        r.deep_view() == summary(dir@, hour, minute, platform),
{
    let mut lines: Vec<Line> = Vec::new();
    ui::put_blank(&mut lines);
    names::put(&mut lines, Line::one("  ", ui::bold("Summary:")));
    names::put(&mut lines, Line::one("  Scan directory: ", ui::value(dir)));
    names::put(
        &mut lines,
        Line::one("  Run daily at:   ", ui::value(platform::clock_text(hour as u32, minute as u32).as_str())),
    );
    names::put(&mut lines, Line::one("  Scheduler:      ", ui::value(platform::scheduler_name(platform))));
    ui::put_blank(&mut lines);
    assert(lines.deep_view() =~= summary(dir@, hour, minute, platform));
    lines
}

} // verus!
