//! Named schedules on the scheduler that the machine has.
use crate::command::{Outcome, OutcomeModel};
use crate::defaults;
use crate::error::{Error, ErrorModel};
use crate::launchd;
use crate::names;
use crate::paths;
use crate::plan;
use crate::plan::{Step, StepModel};
use crate::platform;
use crate::platform::{FileModel, FileState, Host, HostModel, Platform, Report, ReportModel, SchedulerWatch, UnitModel, UnitWatch, WatchModel};
use crate::schedule_names;
use crate::systemd;
use crate::text;
use crate::ui;
use crate::ui::{Line, SpanModel, Style};
use vstd::prelude::*;

verus! {

/// The arguments with which a schedule runs the binary.
pub open spec fn run_args(workspace: Seq<char>) -> Seq<Seq<char>> {
    seq!["run"@, "--workspace"@, workspace]
}

/// The arguments with which a schedule runs the binary.
pub fn workspace_run_args(workspace_name: &str) -> (r: Vec<String>)
    ensures
        r.deep_view() == run_args(workspace_name@),
{
    let mut args: Vec<String> = Vec::new();
    names::put(&mut args, "run".to_owned());
    names::put(&mut args, "--workspace".to_owned());
    names::put(&mut args, workspace_name.to_owned());
    assert(args.deep_view() =~= run_args(workspace_name@));
    args
}

/// How a schedule for a workspace is installed, or why it is not.
pub open spec fn installation(
    host: HostModel,
    schedule: Seq<char>,
    workspace: Seq<char>,
    hour: u8,
    minute: u8,
    present: Seq<Seq<char>>,
) -> Result<Seq<StepModel>, ErrorModel> {
    if host.platform is Unsupported {
        Err(
            ErrorModel::plain(
                "Scheduled execution is not supported on this platform. Supported: macOS (launchd), Linux (systemd)."@,
            ),
        )
    } else if let Some(complaint) = defaults::name_problem("workspace"@, workspace) {
        Err(ErrorModel::plain(complaint))
    } else if let Err(cause) = host.exe {
        Err(ErrorModel::caused(platform::no_exe(), cause))
    } else if let Some(complaint) = schedule_names::problem(schedule) {
        Err(ErrorModel::plain(complaint))
    } else if host.home is None {
        Err(ErrorModel::plain(platform::no_home()))
    } else if host.platform is Launchd {
        Ok(
            launchd::install_plan(
                host.home->0,
                host.exe->Ok_0,
                host.search_path,
                schedule,
                run_args(workspace),
                hour,
                minute,
                present,
            ),
        )
    } else {
        Ok(
            systemd::install_plan(
                host.home->0,
                host.exe->Ok_0,
                schedule,
                run_args(workspace),
                hour,
                minute,
                present,
            ),
        )
    }
}

/// The steps that install a daily run of a workspace. `present` are the files that are there.
pub fn install_workspace(
    host: &Host,
    schedule_name: &str,
    workspace_name: &str,
    hour: u8,
    minute: u8,
    present: &Vec<String>,
) -> (r: Result<Vec<Step>, Error>)
    ensures
        plan::plan_model(r) == installation(
            host@,
            schedule_name@,
            workspace_name@,
            hour,
            minute,
            present.deep_view(),
        ),
{
    if let Platform::Unsupported = host.platform {
        return Err(
            Error::new(
                "Scheduled execution is not supported on this platform. Supported: macOS (launchd), Linux (systemd).".to_owned(),
            ),
        );
    }
    match defaults::validate_registration_name("workspace", workspace_name) {
        Ok(()) => {},
        Err(e) => return Err(e),
    }
    let exe = match host.binary_path() {
        Ok(exe) => exe,
        Err(e) => return Err(e),
    };
    match schedule_names::validate_schedule_name(schedule_name) {
        Ok(()) => {},
        Err(e) => return Err(e),
    }
    let home = match host.home_dir() {
        Ok(home) => home,
        Err(e) => return Err(e),
    };
    let args = workspace_run_args(workspace_name);
    if let Platform::Launchd = host.platform {
        Ok(
            launchd::install_with_args(
                home,
                exe,
                host.search_path.as_str(),
                schedule_name,
                &args,
                hour,
                minute,
                present,
            ),
        )
    } else {
        Ok(systemd::install_with_args(home, exe, schedule_name, &args, hour, minute, present))
    }
}

/// How a schedule is removed, or why it is not. launchd asks for the home directory first, systemd
/// for a name.
pub open spec fn removal(host: HostModel, schedule: Seq<char>, present: Seq<Seq<char>>) -> Result<Seq<StepModel>, ErrorModel> {
    match host.platform {
        Platform::Unsupported => Err(ErrorModel::plain("Scheduled execution is not supported on this platform."@)),
        Platform::Launchd => match (host.home, schedule_names::problem(schedule)) {
            (None, _) => Err(ErrorModel::plain(platform::no_home())),
            (_, Some(complaint)) => Err(ErrorModel::plain(complaint)),
            (Some(home), None) => Ok(launchd::uninstall_plan(home, schedule, present)),
        },
        Platform::Systemd => match (host.home, schedule_names::problem(schedule)) {
            (_, Some(complaint)) => Err(ErrorModel::plain(complaint)),
            (None, None) => Err(ErrorModel::plain(platform::no_home())),
            (Some(home), None) => Ok(systemd::uninstall_plan(home, schedule, present)),
        },
    }
}

/// The steps that remove a schedule. `present` are the files that are there.
pub fn uninstall(host: &Host, schedule_name: &str, present: &Vec<String>) -> (r: Result<Vec<Step>, Error>)
    ensures
        plan::plan_model(r) == removal(host@, schedule_name@, present.deep_view()),
{
    match host.platform {
        Platform::Unsupported => Err(
            Error::new("Scheduled execution is not supported on this platform.".to_owned()),
        ),
        Platform::Launchd => {
            let home = match host.home_dir() {
                Ok(home) => home,
                Err(e) => return Err(e),
            };
            match schedule_names::validate_schedule_name(schedule_name) {
                Ok(()) => Ok(launchd::uninstall(home, schedule_name, present)),
                Err(e) => Err(e),
            }
        },
        Platform::Systemd => {
            match schedule_names::validate_schedule_name(schedule_name) {
                Ok(()) => {},
                Err(e) => return Err(e),
            }
            match host.home_dir() {
                Ok(home) => Ok(systemd::uninstall(home, schedule_name, present)),
                Err(e) => Err(e),
            }
        },
    }
}

/// The files that the plans for a schedule ask after.
pub open spec fn files_of(host: HostModel, schedule: Seq<char>) -> Seq<Seq<char>> {
    match (host.platform, host.home) {
        (Platform::Launchd, Some(home)) => seq![
            launchd::plist_of(home, launchd::label_for(schedule)),
            launchd::plist_of(home, launchd::legacy_label()),
        ],
        (Platform::Systemd, Some(home)) => seq![
            systemd::service_of(home, systemd::stem_for(schedule)),
            systemd::timer_of(home, systemd::stem_for(schedule)),
            systemd::service_of(home, systemd::legacy_stem()),
            systemd::timer_of(home, systemd::legacy_stem()),
        ],
        _ => Seq::empty(),
    }
}

/// The files that the plans for a schedule ask after: none where its name is refused anyway.
pub fn schedule_files(host: &Host, schedule_name: &str) -> (r: Vec<String>)
    ensures
        r.deep_view() == (if schedule_names::problem(schedule_name@) is None {
            files_of(host@, schedule_name@)
        } else {
            Seq::empty()
        }),
{
    let mut files: Vec<String> = Vec::new();
    assert(files.deep_view() =~= Seq::empty());
    let home = match &host.home {
        Some(home) => home.as_str(),
        None => return files,
    };
    match host.platform {
        Platform::Launchd => {
            if let Ok(plist) = launchd::plist_path(home, schedule_name) {
                names::put(&mut files, plist);
                names::put(&mut files, launchd::legacy_plist_path(home));
                assert(files.deep_view() =~= files_of(host@, schedule_name@));
            }
        },
        Platform::Systemd => {
            if let (Ok(svc), Ok(tmr)) = (
                systemd::service_path(home, schedule_name),
                systemd::timer_path(home, schedule_name),
            ) {
                names::put(&mut files, svc);
                names::put(&mut files, tmr);
                names::put(&mut files, systemd::legacy_service_path(home));
                names::put(&mut files, systemd::legacy_timer_path(home));
                assert(files.deep_view() =~= files_of(host@, schedule_name@));
            }
        },
        Platform::Unsupported => {},
    }
    files
}

/// The plans for a schedule depend on which of its files are there, and on no other file.
pub proof fn lemma_plans_ask_after_their_files_only(
    host: HostModel,
    schedule: Seq<char>,
    workspace: Seq<char>,
    hour: u8,
    minute: u8,
    a: Seq<Seq<char>>,
    b: Seq<Seq<char>>,
)
    requires
        forall|path: Seq<char>| files_of(host, schedule).contains(path) ==> (a.contains(path) <==> #[trigger] b.contains(path)),
    ensures
        installation(host, schedule, workspace, hour, minute, a) == installation(
            host,
            schedule,
            workspace,
            hour,
            minute,
            b,
        ),
        removal(host, schedule, a) == removal(host, schedule, b),
{
    let files = files_of(host, schedule);
    assert forall|i: int| 0 <= i < files.len() implies a.contains(#[trigger] files[i]) == b.contains(files[i]) by {
        assert(files.contains(files[i]));
    }
    if host.home is Some && host.platform is Launchd {
        assert(files.len() == 2);
        assert(a.contains(files[0]) == b.contains(files[0]));
        assert(a.contains(files[1]) == b.contains(files[1]));
    } else if host.home is Some && host.platform is Systemd {
        assert(files.len() == 4);
        assert(a.contains(files[0]) == b.contains(files[0]));
        assert(a.contains(files[1]) == b.contains(files[1]));
        assert(a.contains(files[2]) == b.contains(files[2]));
        assert(a.contains(files[3]) == b.contains(files[3]));
    }
}

/// What is known of a schedule: nothing but that its file is not there, where it was not looked for.
pub open spec fn known(units: Seq<UnitModel>, name: Seq<char>) -> UnitModel {
    match platform::watched(units, name) {
        Some(unit) => unit,
        None => UnitModel {
            name,
            file: FileModel::Absent,
            active: OutcomeModel::NotStarted { cause: Seq::empty() },
            timers: OutcomeModel::NotStarted { cause: Seq::empty() },
        },
    }
}

/// The state of one schedule.
pub open spec fn state_of(host: HostModel, name: Seq<char>, units: Seq<UnitModel>, listing: Seq<char>) -> ReportModel {
    let unit = known(units, name);
    if host.platform is Launchd {
        launchd::unit_report(host.home, name, unit.file, listing)
    } else {
        systemd::unit_report(host.home, name, unit)
    }
}

/// The states of several schedules. The first error ends the report.
pub open spec fn states(host: HostModel, shown: Seq<Seq<char>>, units: Seq<UnitModel>, listing: Seq<char>) -> ReportModel
    decreases shown.len(),
{
    if shown.len() == 0 {
        ReportModel::fine(Seq::empty())
    } else {
        states(host, shown.drop_last(), units, listing).followed_by(state_of(host, shown.last(), units, listing))
    }
}

/// The lines about the older, unnamed schedule.
pub open spec fn legacy_report(host: HostModel, installed: bool) -> ReportModel {
    match host.home {
        None => ReportModel::failed(Seq::empty(), ErrorModel::plain(platform::no_home())),
        Some(home) => ReportModel::fine(
            if installed {
                seq![
                    ui::two("  "@, ui::span("legacy daily"@, Style::Name), ui::span("installed"@, Style::Warning)),
                    if host.platform is Launchd {
                        ui::two(
                            "    "@,
                            ui::label_of("Plist"@),
                            ui::span(launchd::plist_of(home, launchd::legacy_label()), Style::Path),
                        )
                    } else {
                        ui::two(
                            "    "@,
                            ui::label_of("Timer"@),
                            ui::span(systemd::timer_of(home, systemd::legacy_stem()), Style::Path),
                        )
                    },
                ]
            } else {
                Seq::empty()
            },
        ),
    }
}

/// The lines above the states.
pub open spec fn heading(platform: Platform) -> Seq<Seq<SpanModel>> {
    let title = ui::one(""@, ui::span("Schedule configuration"@, Style::Title));
    if platform is Unsupported {
        seq![
            title,
            ui::two("  "@, ui::label_of("Scheduler"@), ui::span("unsupported"@, Style::Warning)),
            ui::two("  "@, ui::label_of("Status"@), ui::span("not supported on this platform"@, Style::Muted)),
        ]
    } else {
        seq![
            title,
            ui::two("  "@, ui::label_of("Scheduler"@), ui::span(platform::scheduler_word(platform), Style::Value)),
        ]
    }
}

/// What is printed about the schedules of the names `shown`.
pub open spec fn configuration(host: HostModel, shown: Seq<Seq<char>>, watch: WatchModel) -> ReportModel {
    let rest = match (host.platform, watch.listing) {
        (Platform::Unsupported, _) => ReportModel::fine(Seq::empty()),
        (Platform::Launchd, OutcomeModel::NotStarted { cause }) => ReportModel::failed(
            Seq::empty(),
            ErrorModel::caused("Failed to run launchctl list"@, cause),
        ),
        (Platform::Launchd, OutcomeModel::Exited { stdout, .. }) => states(host, shown, watch.units, stdout).followed_by(
            legacy_report(host, watch.legacy_installed),
        ),
        (Platform::Systemd, _) => states(host, shown, watch.units, ""@).followed_by(
            legacy_report(host, watch.legacy_installed),
        ),
    };
    rest.under(heading(host.platform))
}

fn follow(first: Report, next: Report) -> (r: Report)
    ensures
        r@ == first@.followed_by(next@),
{
    if first.error.is_some() {
        return first;
    }
    let mut lines = first.lines;
    ui::put_lines(&mut lines, next.lines);
    Report { lines, error: next.error }
}

fn unit_state(host: &Host, name: &str, units: &Vec<UnitWatch>, listing: &str) -> (r: Report)
    ensures
        r@ == state_of(host@, name@, units.deep_view(), listing@),
{
    let home = match &host.home {
        Some(home) => Some(home.as_str()),
        None => None,
    };
    let absent = FileState::Absent;
    let unasked = Outcome::NotStarted { cause: String::new() };
    let (file, active, timers) = match platform::find_watch(units, name) {
        Some(unit) => (&unit.file, &unit.active, &unit.timers),
        None => (&absent, &unasked, &unasked),
    };
    if let Platform::Launchd = host.platform {
        launchd::unit_status(home, name, file, listing)
    } else {
        systemd::unit_status(home, name, file, active, timers)
    }
}

fn unit_states(host: &Host, shown: &Vec<String>, units: &Vec<UnitWatch>, listing: &str) -> (r: Report)
    ensures
        r@ == states(host@, shown.deep_view(), units.deep_view(), listing@),
{
    let ghost all = shown.deep_view();
    let mut report = Report { lines: Vec::new(), error: None };
    let mut i: usize = 0;
    assert(report@.lines =~= Seq::empty());
    while i < shown.len()
        invariant
            all == shown.deep_view(),
            i <= shown.len(),
            report@ == states(host@, all.subrange(0, i as int), units.deep_view(), listing@),
        decreases shown.len() - i,
    {
        proof {
            let now = all.subrange(0, i + 1);
            assert(now.drop_last() =~= all.subrange(0, i as int));
            assert(now.last() == shown@[i as int]@);
        }
        report = follow(report, unit_state(host, shown[i].as_str(), units, listing));
        i = i + 1;
    }
    assert(all.subrange(0, shown.len() as int) =~= all);
    report
}

fn legacy_state(host: &Host, installed: bool) -> (r: Report)
    ensures
        r@ == legacy_report(host@, installed),
{
    let mut lines: Vec<Line> = Vec::new();
    let home = match host.home_dir() {
        Ok(home) => home,
        Err(e) => return Report { lines, error: Some(e) },
    };
    if installed {
        names::put(&mut lines, Line::two("  ", ui::name("legacy daily"), ui::warning("installed")));
        if let Platform::Launchd = host.platform {
            names::put(
                &mut lines,
                Line::two("    ", ui::label("Plist"), ui::path(launchd::legacy_plist_path(home).as_str())),
            );
        } else {
            names::put(
                &mut lines,
                Line::two("    ", ui::label("Timer"), ui::path(systemd::legacy_timer_path(home).as_str())),
            );
        }
    }
    Report { lines, error: None }
}

fn heading_lines(platform: Platform) -> (r: Vec<Line>)
    ensures
        r.deep_view() == heading(platform),
{
    let mut lines: Vec<Line> = Vec::new();
    names::put(&mut lines, Line::one("", ui::title("Schedule configuration")));
    if let Platform::Unsupported = platform {
        names::put(&mut lines, Line::two("  ", ui::label("Scheduler"), ui::warning("unsupported")));
        names::put(
            &mut lines,
            Line::two("  ", ui::label("Status"), ui::muted("not supported on this platform")),
        );
    } else {
        names::put(
            &mut lines,
            Line::two("  ", ui::label("Scheduler"), ui::value(platform::scheduler_name(platform))),
        );
    }
    assert(lines.deep_view() =~= heading(platform));
    lines
}

/// What is printed about the schedules of these names, or about the one of the usual name where
/// none is given: the names in order, each once, as `watch` found them.
pub fn print_config(host: &Host, schedule_names: &Vec<String>, watch: &SchedulerWatch) -> (r: Report)
    ensures
        exists|shown: Seq<Seq<char>>|
            #[trigger] schedule_names::printable(schedule_names.deep_view(), shown) && r@ == configuration(
                host@,
                shown,
                watch@,
            ),
{
    let shown = schedule_names::printable_schedule_names(schedule_names);
    let mut lines = heading_lines(host.platform);
    let ghost top = lines.deep_view();
    let listing: &str = match (host.platform, &watch.listing) {
        (Platform::Unsupported, _) => {
            assert(top + Seq::<Seq<SpanModel>>::empty() =~= top);
            let report = Report { lines, error: None };
            assert(report@ == configuration(host@, shown.deep_view(), watch@));
            return report;
        },
        (Platform::Launchd, Outcome::NotStarted { cause }) => {
            assert(top + Seq::<Seq<SpanModel>>::empty() =~= top);
            let report = Report {
                lines,
                error: Some(Error::caused_by("Failed to run launchctl list".to_owned(), cause.clone())),
            };
            assert(report@ == configuration(host@, shown.deep_view(), watch@));
            return report;
        },
        (Platform::Launchd, Outcome::Exited { stdout, .. }) => stdout.as_str(),
        (Platform::Systemd, _) => "",
    };
    let states = unit_states(host, &shown, &watch.units, listing);
    let report = follow(states, legacy_state(host, watch.legacy_installed));
    ui::put_lines(&mut lines, report.lines);
    let report = Report { lines, error: report.error };
    assert(report@ == configuration(host@, shown.deep_view(), watch@));
    report
}

proof fn lemma_joined_keeps_apart(base: Seq<char>, a: Seq<char>, b: Seq<char>)
    requires
        a.len() > 0,
        b.len() > 0,
        a[0] != '/',
        b[0] != '/',
        a != b,
    ensures
        paths::joined(base, a) != paths::joined(base, b),
{
    let x = paths::joined(base, a);
    let y = paths::joined(base, b);
    reveal_strlit("/");
    let n = if base.len() == 0 || base.last() == '/' { base.len() as int } else { base.len() as int + 1 };
    assert(text::after(x, n) =~= a);
    assert(text::after(y, n) =~= b);
}

proof fn lemma_middle_keeps_apart(front: Seq<char>, a: Seq<char>, b: Seq<char>, back: Seq<char>)
    requires
        a != b,
    ensures
        front + a + back != front + b + back,
{
    let x = front + a + back;
    let y = front + b + back;
    if x == y {
        assert(x.len() == y.len());
        assert(x.subrange(front.len() as int, x.len() - back.len()) =~= a);
        assert(y.subrange(front.len() as int, y.len() - back.len()) =~= b);
    }
}

/// Two schedules of different names share no file, and none shares one with the older, unnamed
/// schedule.
pub proof fn lemma_schedules_have_their_own_files(home: Seq<char>, a: Seq<char>, b: Seq<char>)
    requires
        schedule_names::problem(a) is None,
        schedule_names::problem(b) is None,
        a != b,
    ensures
        launchd::plist_of(home, launchd::label_for(a)) != launchd::plist_of(home, launchd::label_for(b)),
        launchd::plist_of(home, launchd::label_for(a)) != launchd::plist_of(home, launchd::legacy_label()),
        systemd::service_of(home, systemd::stem_for(a)) != systemd::service_of(home, systemd::stem_for(b)),
        systemd::timer_of(home, systemd::stem_for(a)) != systemd::timer_of(home, systemd::stem_for(b)),
        systemd::service_of(home, systemd::stem_for(a)) != systemd::service_of(home, systemd::legacy_stem()),
        systemd::timer_of(home, systemd::stem_for(a)) != systemd::timer_of(home, systemd::legacy_stem()),
{
    reveal_strlit("com.worktree-gc.");
    reveal_strlit("com.worktree-gc.daily");
    reveal_strlit("daily");
    reveal_strlit("worktree-gc-");
    reveal_strlit("worktree-gc");
    reveal_strlit(".plist");
    reveal_strlit(".service");
    reveal_strlit(".timer");
    let agents = launchd::agents_dir(home);
    let units = systemd::units_dir(home);
    lemma_middle_keeps_apart("com.worktree-gc."@, a, b, ".plist"@);
    lemma_middle_keeps_apart("com.worktree-gc."@, a, "daily"@, ".plist"@);
    assert("com.worktree-gc.daily"@ =~= "com.worktree-gc."@ + "daily"@);
    lemma_joined_keeps_apart(agents, launchd::label_for(a) + ".plist"@, launchd::label_for(b) + ".plist"@);
    lemma_joined_keeps_apart(agents, launchd::label_for(a) + ".plist"@, launchd::legacy_label() + ".plist"@);
    lemma_middle_keeps_apart("worktree-gc-"@, a, b, ".service"@);
    lemma_middle_keeps_apart("worktree-gc-"@, a, b, ".timer"@);
    lemma_joined_keeps_apart(units, systemd::stem_for(a) + ".service"@, systemd::stem_for(b) + ".service"@);
    lemma_joined_keeps_apart(units, systemd::stem_for(a) + ".timer"@, systemd::stem_for(b) + ".timer"@);
    assert((systemd::stem_for(a) + ".service"@)[11] == '-');
    assert((systemd::legacy_stem() + ".service"@)[11] == '.');
    assert((systemd::stem_for(a) + ".timer"@)[11] == '-');
    assert((systemd::legacy_stem() + ".timer"@)[11] == '.');
    lemma_joined_keeps_apart(units, systemd::stem_for(a) + ".service"@, systemd::legacy_stem() + ".service"@);
    lemma_joined_keeps_apart(units, systemd::stem_for(a) + ".timer"@, systemd::legacy_stem() + ".timer"@);
}

/// The test for steps that write that file.
pub open spec fn writing(path: Seq<char>) -> spec_fn(StepModel) -> bool {
    |step: StepModel| step matches StepModel::WriteFile { path: p, .. } && p == path
}

/// The test for steps that remove that file.
pub open spec fn removing(path: Seq<char>) -> spec_fn(StepModel) -> bool {
    |step: StepModel| step matches StepModel::RemoveFile { path: p, .. } && p == path
}

/// Some step of the plan passes the test.
pub open spec fn some_step(steps: Seq<StepModel>, test: spec_fn(StepModel) -> bool) -> bool {
    exists|i: int| 0 <= i < steps.len() && test(#[trigger] steps[i])
}

/// Some step of the plan writes or removes that file.
pub open spec fn touches(steps: Seq<StepModel>, path: Seq<char>) -> bool {
    some_step(steps, writing(path)) || some_step(steps, removing(path))
}

proof fn lemma_some_step_of_sum(a: Seq<StepModel>, b: Seq<StepModel>, test: spec_fn(StepModel) -> bool)
    ensures
        some_step(a + b, test) <==> some_step(a, test) || some_step(b, test),
{
    let c = a + b;
    if some_step(c, test) {
        let i = choose|i: int| 0 <= i < c.len() && test(#[trigger] c[i]);
        if i < a.len() {
            assert(test(a[i]));
        } else {
            assert(test(b[i - a.len()]));
        }
    }
    if some_step(a, test) {
        let i = choose|i: int| 0 <= i < a.len() && test(#[trigger] a[i]);
        assert(test(c[i]));
    }
    if some_step(b, test) {
        let i = choose|i: int| 0 <= i < b.len() && test(#[trigger] b[i]);
        assert(test(c[a.len() + i]));
    }
}

proof fn lemma_touches_sum(a: Seq<StepModel>, b: Seq<StepModel>, path: Seq<char>)
    ensures
        some_step(a + b, writing(path)) <==> some_step(a, writing(path)) || some_step(b, writing(path)),
        some_step(a + b, removing(path)) <==> some_step(a, removing(path)) || some_step(b, removing(path)),
{
    lemma_some_step_of_sum(a, b, writing(path));
    lemma_some_step_of_sum(a, b, removing(path));
}

/// The files of a schedule.
pub open spec fn own_files(host: HostModel, schedule: Seq<char>) -> Seq<Seq<char>> {
    match (host.platform, host.home) {
        (Platform::Launchd, Some(home)) => seq![launchd::plist_of(home, launchd::label_for(schedule))],
        (Platform::Systemd, Some(home)) => seq![
            systemd::service_of(home, systemd::stem_for(schedule)),
            systemd::timer_of(home, systemd::stem_for(schedule)),
        ],
        _ => Seq::empty(),
    }
}

/// The files of the older, unnamed schedule.
pub open spec fn legacy_files(host: HostModel) -> Seq<Seq<char>> {
    match (host.platform, host.home) {
        (Platform::Launchd, Some(home)) => seq![launchd::plist_of(home, launchd::legacy_label())],
        (Platform::Systemd, Some(home)) => seq![
            systemd::service_of(home, systemd::legacy_stem()),
            systemd::timer_of(home, systemd::legacy_stem()),
        ],
        _ => Seq::empty(),
    }
}

/// The plans for a schedule may write or remove that file.
pub open spec fn may_touch(host: HostModel, schedule: Seq<char>, path: Seq<char>) -> bool {
    own_files(host, schedule).contains(path) || schedule == "default"@ && legacy_files(host).contains(path)
}

proof fn lemma_launchd_touches(
    home: Seq<char>,
    exe: Seq<char>,
    search_path: Seq<char>,
    name: Seq<char>,
    args: Seq<Seq<char>>,
    hour: u8,
    minute: u8,
    present: Seq<Seq<char>>,
    path: Seq<char>,
)
    ensures
        ({
            let own = launchd::plist_of(home, launchd::label_for(name));
            let older = launchd::plist_of(home, launchd::legacy_label());
            let fine = path == own || path == older && name == "default"@;
            let install = launchd::install_plan(home, exe, search_path, name, args, hour, minute, present);
            let uninstall = launchd::uninstall_plan(home, name, present);
            &&& touches(install, path) ==> fine
            &&& touches(uninstall, path) ==> fine
            &&& some_step(install, writing(path)) <==> path == own
            &&& path == own && present.contains(own) ==> some_step(uninstall, removing(path))
        }),
{
    let own = launchd::plist_of(home, launchd::label_for(name));
    let none = Seq::<StepModel>::empty();
    let dirs = seq![
        StepModel::CreateDir { path: launchd::agents_dir(home) },
        StepModel::CreateDir { path: platform::log_dir_of(home) },
    ];
    let legacy = if name == "default"@ { launchd::legacy_removal(home, present) } else { none };
    let unload = if present.contains(own) { seq![plan::attempt(launchd::launchctl("unload"@, own))] } else { none };
    let content = launchd::schedule_plist(home, exe, search_path, name, args, hour, minute);
    let activation = launchd::activation(own, content, exe, name, hour, minute);
    lemma_touches_sum(dirs, legacy, path);
    lemma_touches_sum(dirs + legacy, unload, path);
    lemma_touches_sum(dirs + legacy + unload, activation, path);
    let older = name == "default"@ && present.contains(launchd::plist_of(home, launchd::legacy_label()));
    let job = if present.contains(own) { launchd::job_removal(own, name) } else { none };
    let note = StepModel::Show(ui::one(""@, ui::span("✓ Legacy schedule removed"@, Style::Success)));
    let migrated = if older { launchd::legacy_removal(home, present).push(note) } else { none };
    let missing = if present.contains(own) || older {
        none
    } else {
        seq![
            StepModel::Show(
                ui::two(
                    ""@,
                    ui::span("No schedule installed"@, Style::Warning),
                    ui::span("(plist not found: "@ + own + ")"@, Style::Muted),
                ),
            ),
        ]
    };
    lemma_touches_sum(launchd::legacy_removal(home, present), seq![note], path);
    assert(launchd::legacy_removal(home, present).push(note) =~= launchd::legacy_removal(home, present) + seq![note]);
    lemma_touches_sum(job, migrated, path);
    lemma_touches_sum(job + migrated, missing, path);
}

proof fn lemma_systemd_legacy_touches(home: Seq<char>, present: Seq<Seq<char>>, path: Seq<char>)
    ensures
        !some_step(systemd::legacy_removal(home, present), writing(path)),
        touches(systemd::legacy_removal(home, present), path) ==> path == systemd::service_of(
            home,
            systemd::legacy_stem(),
        ) || path == systemd::timer_of(home, systemd::legacy_stem()),
{
    let svc = systemd::service_of(home, systemd::legacy_stem());
    let tmr = systemd::timer_of(home, systemd::legacy_stem());
    let halt = systemd::halt(systemd::legacy_stem());
    let a = systemd::only_if(present.contains(tmr), seq![systemd::dropped(tmr)]);
    let b = systemd::only_if(present.contains(svc), seq![systemd::dropped(svc)]);
    lemma_touches_sum(halt, a, path);
    lemma_touches_sum(halt + a, b, path);
    lemma_touches_sum(halt + a + b, seq![plan::attempt(systemd::reload())], path);
}

proof fn lemma_systemd_touches(
    home: Seq<char>,
    exe: Seq<char>,
    name: Seq<char>,
    args: Seq<Seq<char>>,
    hour: u8,
    minute: u8,
    present: Seq<Seq<char>>,
    path: Seq<char>,
)
    ensures
        ({
            let own = path == systemd::service_of(home, systemd::stem_for(name)) || path == systemd::timer_of(
                home,
                systemd::stem_for(name),
            );
            let older = path == systemd::service_of(home, systemd::legacy_stem()) || path == systemd::timer_of(
                home,
                systemd::legacy_stem(),
            );
            let fine = own || older && name == "default"@;
            let install = systemd::install_plan(home, exe, name, args, hour, minute, present);
            let uninstall = systemd::uninstall_plan(home, name, present);
            &&& touches(install, path) ==> fine
            &&& touches(uninstall, path) ==> fine
            &&& some_step(install, writing(path)) <==> own
            &&& own && present.contains(path) ==> some_step(uninstall, removing(path))
        }),
{
    let stem = systemd::stem_for(name);
    let svc = systemd::service_of(home, stem);
    let tmr = systemd::timer_of(home, stem);
    let legacy = systemd::legacy_removal(home, present);
    lemma_systemd_legacy_touches(home, present, path);
    let dirs = systemd::directories(home);
    let a = systemd::only_if(name == "default"@, legacy);
    let halt = systemd::halt(stem);
    let activation = systemd::activation(
        svc,
        tmr,
        text::unlines(
            systemd::service_lines(systemd::service_description(name), systemd::quoted_command(exe, args)),
        ),
        text::unlines(systemd::timer_lines(systemd::timer_description(name), hour, minute)),
        stem,
    );
    let shown = systemd::installed_lines(svc, tmr, exe, name, hour, minute);
    lemma_touches_sum(dirs, a, path);
    lemma_touches_sum(dirs + a, halt, path);
    lemma_touches_sum(dirs + a + halt, activation, path);
    lemma_touches_sum(dirs + a + halt + activation, shown, path);
    let older = name == "default"@ && systemd::has_legacy(home, present);
    let note = StepModel::Show(ui::one(""@, ui::span("✓ Legacy schedule removed"@, Style::Success)));
    let b = systemd::only_if(present.contains(tmr), systemd::deleted(tmr));
    let c = systemd::only_if(present.contains(svc), systemd::deleted(svc));
    let d = systemd::only_if(older, legacy.push(note));
    let e = seq![plan::attempt(systemd::reload())];
    let f = if present.contains(tmr) || present.contains(svc) || older {
        seq![
            StepModel::Show(ui::one(""@, ui::span("✓ Schedule removed"@, Style::Success))),
            plan::shown("Name"@, ui::span(name, Style::Name)),
        ]
    } else {
        seq![
            StepModel::Show(
                ui::one(""@, ui::span("No schedule installed (unit files not found)"@, Style::Warning)),
            ),
        ]
    };
    lemma_touches_sum(legacy, seq![note], path);
    assert(legacy.push(note) =~= legacy + seq![note]);
    lemma_touches_sum(halt, b, path);
    lemma_touches_sum(halt + b, c, path);
    lemma_touches_sum(halt + b + c, d, path);
    lemma_touches_sum(halt + b + c + d, e, path);
    lemma_touches_sum(halt + b + c + d + e, f, path);
}

/// The plans for a schedule write and remove none but its own files, and those of the older, unnamed
/// schedule only for the schedule of the usual name, which takes its place.
pub proof fn lemma_plans_touch_their_own_files_only(
    host: HostModel,
    schedule: Seq<char>,
    workspace: Seq<char>,
    hour: u8,
    minute: u8,
    present: Seq<Seq<char>>,
    path: Seq<char>,
)
    ensures
        installation(host, schedule, workspace, hour, minute, present) matches Ok(steps) ==> touches(steps, path)
            ==> may_touch(host, schedule, path),
        removal(host, schedule, present) matches Ok(steps) ==> touches(steps, path) ==> may_touch(
            host,
            schedule,
            path,
        ),
{
    let own = own_files(host, schedule);
    let legacy = legacy_files(host);
    assert(forall|i: int| 0 <= i < own.len() ==> own.contains(#[trigger] own[i]));
    assert(forall|i: int| 0 <= i < legacy.len() ==> legacy.contains(#[trigger] legacy[i]));
    if host.home is Some {
        let home = host.home->0;
        let args = run_args(workspace);
        if host.platform is Launchd {
            lemma_launchd_touches(home, host.exe->Ok_0, host.search_path, schedule, args, hour, minute, present, path);
            assert(own.len() == 1 && legacy.len() == 1);
            assert(own.contains(own[0]) && legacy.contains(legacy[0]));
        } else if host.platform is Systemd {
            lemma_systemd_touches(home, host.exe->Ok_0, schedule, args, hour, minute, present, path);
            assert(own.len() == 2 && legacy.len() == 2);
            assert(own.contains(own[0]) && own.contains(own[1]));
            assert(legacy.contains(legacy[0]) && legacy.contains(legacy[1]));
        }
    }
}

/// Each file that the installation of a schedule writes is removed again with the schedule, if it is
/// there.
pub proof fn lemma_removal_undoes_installation(
    host: HostModel,
    schedule: Seq<char>,
    workspace: Seq<char>,
    hour: u8,
    minute: u8,
    before: Seq<Seq<char>>,
    later: Seq<Seq<char>>,
    path: Seq<char>,
)
    requires
        installation(host, schedule, workspace, hour, minute, before) is Ok,
        some_step(installation(host, schedule, workspace, hour, minute, before)->Ok_0, writing(path)),
        later.contains(path),
    ensures
        removal(host, schedule, later) is Ok,
        some_step(removal(host, schedule, later)->Ok_0, removing(path)),
{
    let home = host.home->0;
    let args = run_args(workspace);
    if host.platform is Launchd {
        lemma_launchd_touches(home, host.exe->Ok_0, host.search_path, schedule, args, hour, minute, before, path);
        lemma_launchd_touches(home, host.exe->Ok_0, host.search_path, schedule, args, hour, minute, later, path);
    } else {
        lemma_systemd_touches(home, host.exe->Ok_0, schedule, args, hour, minute, before, path);
        lemma_systemd_touches(home, host.exe->Ok_0, schedule, args, hour, minute, later, path);
    }
}

} // verus!
