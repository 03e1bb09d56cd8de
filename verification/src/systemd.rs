//! Schedules as systemd user units on Linux.
use crate::command::{CommandLine, CommandModel, Outcome, OutcomeModel};
use crate::error::{Error, ErrorModel};
use crate::names;
use crate::paths;
use crate::plan;
use crate::plan::{Step, StepModel};
use crate::platform;
use crate::platform::{FileModel, FileState, Report, ReportModel, UnitModel};
use crate::schedule_names;
use crate::text;
use crate::ui;
use crate::ui::{Line, SpanModel, Style};
use vstd::prelude::*;

verus! {

/// Where systemd looks for the units of a person.
pub open spec fn units_dir(home: Seq<char>) -> Seq<char> {
    paths::joined(home, ".config/systemd/user"@)
}

/// The name of a schedule's units without their ending.
pub open spec fn stem_for(name: Seq<char>) -> Seq<char> {
    "worktree-gc-"@ + name
}

/// The stem of the older, unnamed schedule.
pub open spec fn legacy_stem() -> Seq<char> {
    "worktree-gc"@
}

pub open spec fn service_of(home: Seq<char>, stem: Seq<char>) -> Seq<char> {
    paths::joined(units_dir(home), stem + ".service"@)
}

pub open spec fn timer_of(home: Seq<char>, stem: Seq<char>) -> Seq<char> {
    paths::joined(units_dir(home), stem + ".timer"@)
}

/// Where systemd looks for the units of a person.
pub fn systemd_dir(home: &str) -> (r: String)
    ensures
        r@ == units_dir(home@),
{
    paths::join_path(home, ".config/systemd/user")
}

fn stemmed(name: &str) -> (r: String)
    ensures
        r@ == stem_for(name@),
{
    let mut stem = "worktree-gc-".to_owned();
    stem.append(name);
    stem
}

fn service_at(home: &str, stem: &str) -> (r: String)
    ensures
        r@ == service_of(home@, stem@),
{
    let mut file = stem.to_owned();
    file.append(".service");
    paths::join_path(systemd_dir(home).as_str(), file.as_str())
}

fn timer_at(home: &str, stem: &str) -> (r: String)
    ensures
        r@ == timer_of(home@, stem@),
{
    let mut file = stem.to_owned();
    file.append(".timer");
    paths::join_path(systemd_dir(home).as_str(), file.as_str())
}

/// The name of a schedule's units without their ending, where its name is one.
pub fn unit_stem(name: &str) -> (r: Result<String, Error>)
    ensures
        match r {
            Ok(stem) => schedule_names::problem(name@) is None && stem@ == stem_for(name@),
            Err(e) => schedule_names::problem(name@) matches Some(complaint) && e@ == ErrorModel::plain(complaint),
        },
{
    match schedule_names::validate_schedule_name(name) {
        Ok(()) => Ok(stemmed(name)),
        Err(e) => Err(e),
    }
}

/// The service file of a schedule.
pub fn service_path(home: &str, name: &str) -> (r: Result<String, Error>)
    ensures
        match r {
            Ok(path) => schedule_names::problem(name@) is None && path@ == service_of(home@, stem_for(name@)),
            Err(e) => schedule_names::problem(name@) matches Some(complaint) && e@ == ErrorModel::plain(complaint),
        },
{
    match unit_stem(name) {
        Ok(stem) => Ok(service_at(home, stem.as_str())),
        Err(e) => Err(e),
    }
}

/// The timer file of a schedule.
pub fn timer_path(home: &str, name: &str) -> (r: Result<String, Error>)
    ensures
        match r {
            Ok(path) => schedule_names::problem(name@) is None && path@ == timer_of(home@, stem_for(name@)),
            Err(e) => schedule_names::problem(name@) matches Some(complaint) && e@ == ErrorModel::plain(complaint),
        },
{
    match unit_stem(name) {
        Ok(stem) => Ok(timer_at(home, stem.as_str())),
        Err(e) => Err(e),
    }
}

/// The service file of the older, unnamed schedule.
pub fn legacy_service_path(home: &str) -> (r: String)
    ensures
        r@ == service_of(home@, legacy_stem()),
{
    service_at(home, "worktree-gc")
}

/// The timer file of the older, unnamed schedule.
pub fn legacy_timer_path(home: &str) -> (r: String)
    ensures
        r@ == timer_of(home@, legacy_stem()),
{
    timer_at(home, "worktree-gc")
}

/// `systemctl --user verb stem.timer`.
pub open spec fn timer_command(verb: Seq<char>, stem: Seq<char>) -> CommandModel {
    CommandModel { program: "systemctl"@, args: seq!["--user"@, verb, stem + ".timer"@] }
}

/// `systemctl --user daemon-reload`.
pub open spec fn reload() -> CommandModel {
    CommandModel { program: "systemctl"@, args: seq!["--user"@, "daemon-reload"@] }
}

/// `systemctl --user enable --now stem.timer`.
pub open spec fn enable(stem: Seq<char>) -> CommandModel {
    CommandModel { program: "systemctl"@, args: seq!["--user"@, "enable"@, "--now"@, stem + ".timer"@] }
}

/// `systemctl --user list-timers stem.timer --no-pager`.
pub open spec fn list_timers(stem: Seq<char>) -> CommandModel {
    CommandModel {
        program: "systemctl"@,
        args: seq!["--user"@, "list-timers"@, stem + ".timer"@, "--no-pager"@],
    }
}

fn timer_unit(stem: &str) -> (r: String)
    ensures
        r@ == stem@ + ".timer"@,
{
    let mut unit = stem.to_owned();
    unit.append(".timer");
    unit
}

fn on_timer(verb: &str, stem: &str) -> (r: CommandLine)
    ensures
        r@ == timer_command(verb@, stem@),
{
    CommandLine::new("systemctl").arg("--user").arg(verb).arg(timer_unit(stem).as_str())
}

fn reload_command() -> (r: CommandLine)
    ensures
        r@ == reload(),
{
    CommandLine::new("systemctl").arg("--user").arg("daemon-reload")
}

fn enable_command(stem: &str) -> (r: CommandLine)
    ensures
        r@ == enable(stem@),
{
    CommandLine::new("systemctl").arg("--user").arg("enable").arg("--now").arg(timer_unit(stem).as_str())
}

/// Asks systemd whether the timer of that stem is active.
pub fn active_command(stem: &str) -> (r: CommandLine)
    ensures
        r@ == timer_command("is-active"@, stem@),
{
    on_timer("is-active", stem)
}

/// Asks systemd when the timer of that stem runs next.
pub fn list_timers_command(stem: &str) -> (r: CommandLine)
    ensures
        r@ == list_timers(stem@),
{
    CommandLine::new("systemctl").arg("--user").arg("list-timers").arg(timer_unit(stem).as_str()).arg("--no-pager")
}

/// Characters that need no quotes.
pub open spec fn is_safe(c: char) -> bool {
    ||| 'a' <= c <= 'z'
    ||| 'A' <= c <= 'Z'
    ||| '0' <= c <= '9'
    ||| c == '-' || c == '_' || c == '.' || c == '/' || c == ':' || c == '='
}

pub open spec fn all_safe(s: Seq<char>) -> bool {
    forall|i: int| 0 <= i < s.len() ==> is_safe(#[trigger] s[i])
}

/// A character as it stands between quotes.
pub open spec fn escape(c: char) -> Seq<char> {
    if c == '\\' {
        seq!['\\', '\\']
    } else if c == '\'' {
        seq!['\\', '\'']
    } else {
        seq![c]
    }
}

pub open spec fn escaped(s: Seq<char>) -> Seq<char>
    decreases s.len(),
{
    if s.len() == 0 {
        Seq::empty()
    } else {
        escaped(s.drop_last()) + escape(s.last())
    }
}

/// An argument as it stands in a unit file: in quotes, unless all of it is safe.
pub open spec fn quoted(arg: Seq<char>) -> Seq<char> {
    if all_safe(arg) {
        arg
    } else {
        "'"@ + escaped(arg) + "'"@
    }
}

/// The arguments as they stand in a unit file.
pub open spec fn all_quoted(args: Seq<Seq<char>>) -> Seq<Seq<char>> {
    Seq::new(args.len(), |i: int| quoted(args[i]))
}

fn safe(c: char) -> (r: bool)
    ensures
        r == is_safe(c),
{
    ('a' <= c && c <= 'z') || ('A' <= c && c <= 'Z') || ('0' <= c && c <= '9') || c == '-' || c == '_' || c == '.'
        || c == '/' || c == ':' || c == '='
}

fn all_chars_safe(chars: &Vec<char>) -> (r: bool)
    ensures
        r == all_safe(chars@),
{
    let mut i: usize = 0;
    while i < chars.len()
        invariant
            i <= chars.len(),
            forall|j: int| 0 <= j < i ==> is_safe(#[trigger] chars@[j]),
        decreases chars.len() - i,
    {
        if !safe(chars[i]) {
            assert(!is_safe(chars@[i as int]));
            return false;
        }
        i = i + 1;
    }
    true
}

/// An argument as it stands in a unit file.
pub fn quote_systemd_arg(arg: &str) -> (r: String)
    ensures
        r@ == quoted(arg@),
{
    let chars = text::chars_of(arg);
    if all_chars_safe(&chars) {
        return arg.to_owned();
    }
    let mut out = "'".to_owned();
    let mut i: usize = 0;
    proof {
        assert(arg@.subrange(0, 0) =~= Seq::empty());
        assert("'"@ + Seq::<char>::empty() =~= "'"@);
    }
    while i < chars.len()
        invariant
            chars@ == arg@,
            i <= chars.len(),
            out@ == "'"@ + escaped(arg@.subrange(0, i as int)),
        decreases chars.len() - i,
    {
        let c = chars[i];
        proof {
            let now = arg@.subrange(0, i + 1);
            assert(now.drop_last() =~= arg@.subrange(0, i as int));
            assert(now.last() == c);
            reveal_strlit("\\\\");
            reveal_strlit("\\'");
            assert("\\\\"@ =~= seq!['\\', '\\']);
            assert("\\'"@ =~= seq!['\\', '\'']);
        }
        if c == '\\' {
            out.append("\\\\");
        } else if c == '\'' {
            out.append("\\'");
        } else {
            let piece = arg.substring_char(i, i + 1);
            assert(piece@ =~= seq![c]);
            out.append(piece);
        }
        assert(out@ =~= "'"@ + escaped(arg@.subrange(0, i + 1)));
        i = i + 1;
    }
    assert(arg@.subrange(0, chars.len() as int) =~= arg@);
    out.append("'");
    out
}

fn quote_all(args: &Vec<String>) -> (r: Vec<String>)
    ensures
        r.deep_view() == all_quoted(args.deep_view()),
{
    let mut out: Vec<String> = Vec::new();
    let mut i: usize = 0;
    while i < args.len()
        invariant
            i <= args.len(),
            out.deep_view() == all_quoted(args.deep_view().subrange(0, i as int)),
        decreases args.len() - i,
    {
        names::put(&mut out, quote_systemd_arg(args[i].as_str()));
        assert(out.deep_view() =~= all_quoted(args.deep_view().subrange(0, i + 1)));
        i = i + 1;
    }
    assert(args.deep_view().subrange(0, args.len() as int) =~= args.deep_view());
    out
}

/// The lines of a service that runs that command once, as `description` says.
pub open spec fn service_lines(description: Seq<char>, command: Seq<char>) -> Seq<Seq<char>> {
    seq![
        "[Unit]"@,
        "Description="@ + description,
        ""@,
        "[Service]"@,
        "Type=oneshot"@,
        "ExecStart="@ + command,
        ""@,
        "[Install]"@,
        "WantedBy=default.target"@,
    ]
}

/// When a timer runs.
pub open spec fn calendar(hour: u8, minute: u8) -> Seq<char> {
    "*-*-* "@ + platform::clock(hour as nat, minute as nat) + ":00"@
}

/// The lines of a timer that runs each day, as `description` says.
pub open spec fn timer_lines(description: Seq<char>, hour: u8, minute: u8) -> Seq<Seq<char>> {
    seq![
        "[Unit]"@,
        "Description="@ + description,
        ""@,
        "[Timer]"@,
        "OnCalendar="@ + calendar(hour, minute),
        "Persistent=true"@,
        ""@,
        "[Install]"@,
        "WantedBy=timers.target"@,
    ]
}

/// The text of a service.
pub fn service_text(description: &str, command: &str) -> (r: String)
    ensures
        r@ == text::unlines(service_lines(description@, command@)),
{
    let mut ls: Vec<String> = Vec::new();
    names::put(&mut ls, "[Unit]".to_owned());
    let mut line = "Description=".to_owned();
    line.append(description);
    names::put(&mut ls, line);
    names::put(&mut ls, "".to_owned());
    names::put(&mut ls, "[Service]".to_owned());
    names::put(&mut ls, "Type=oneshot".to_owned());
    let mut line = "ExecStart=".to_owned();
    line.append(command);
    names::put(&mut ls, line);
    names::put(&mut ls, "".to_owned());
    names::put(&mut ls, "[Install]".to_owned());
    names::put(&mut ls, "WantedBy=default.target".to_owned());
    assert(ls.deep_view() =~= service_lines(description@, command@));
    text::unlines_text(&ls)
}

/// The text of a timer.
pub fn timer_text(description: &str, hour: u8, minute: u8) -> (r: String)
    ensures
        r@ == text::unlines(timer_lines(description@, hour, minute)),
{
    let mut ls: Vec<String> = Vec::new();
    names::put(&mut ls, "[Unit]".to_owned());
    let mut line = "Description=".to_owned();
    line.append(description);
    names::put(&mut ls, line);
    names::put(&mut ls, "".to_owned());
    names::put(&mut ls, "[Timer]".to_owned());
    let mut when = "*-*-* ".to_owned();
    when.append(platform::clock_text(hour as u32, minute as u32).as_str());
    when.append(":00");
    let mut line = "OnCalendar=".to_owned();
    line.append(when.as_str());
    names::put(&mut ls, line);
    names::put(&mut ls, "Persistent=true".to_owned());
    names::put(&mut ls, "".to_owned());
    names::put(&mut ls, "[Install]".to_owned());
    names::put(&mut ls, "WantedBy=timers.target".to_owned());
    assert(ls.deep_view() =~= timer_lines(description@, hour, minute));
    text::unlines_text(&ls)
}

/// What the service of a schedule says of itself.
pub open spec fn service_description(name: Seq<char>) -> Seq<char> {
    "Clean up merged git worktrees ("@ + name + ")"@
}

/// What the timer of a schedule says of itself.
pub open spec fn timer_description(name: Seq<char>) -> Seq<char> {
    "Daily cleanup of merged git worktrees ("@ + name + ")"@
}

/// The command of a service: the binary and its arguments, quoted.
pub open spec fn quoted_command(exe: Seq<char>, args: Seq<Seq<char>>) -> Seq<char> {
    quoted(exe) + " "@ + text::join(all_quoted(args), " "@)
}

/// The service of a schedule.
pub fn render_systemd_service(name: &str, exe: &str, run_args: &Vec<String>) -> (r: String)
    ensures
        r@ == text::unlines(
            service_lines(service_description(name@), quoted_command(exe@, run_args.deep_view())),
        ),
{
    let mut description = "Clean up merged git worktrees (".to_owned();
    description.append(name);
    description.append(")");
    let mut command = quote_systemd_arg(exe);
    command.append(" ");
    command.append(text::join_texts(&quote_all(run_args), " ").as_str());
    service_text(description.as_str(), command.as_str())
}

/// The timer of a schedule.
pub fn render_systemd_timer(name: &str, hour: u8, minute: u8) -> (r: String)
    ensures
        r@ == text::unlines(timer_lines(timer_description(name@), hour, minute)),
{
    let mut description = "Daily cleanup of merged git worktrees (".to_owned();
    description.append(name);
    description.append(")");
    timer_text(description.as_str(), hour, minute)
}

/// What stands behind `OnCalendar=` on the first line that starts with it, white space aside.
pub open spec fn calendar_in(ls: Seq<Seq<char>>) -> Option<Seq<char>>
    decreases ls.len(),
{
    if ls.len() == 0 {
        None
    } else if text::has_prefix(text::trim(ls[0]), "OnCalendar="@) {
        Some(text::after(text::trim(ls[0]), "OnCalendar="@.len() as int))
    } else {
        calendar_in(ls.drop_first())
    }
}

/// When the timer with that text runs.
pub fn extract_systemd_timer_schedule(content: &str) -> (r: Option<String>)
    ensures
        r.deep_view() == calendar_in(text::lines(content@)),
{
    let ls = text::split_lines(content);
    let ghost all = ls.deep_view();
    let mut i: usize = 0;
    assert(all.subrange(0, all.len() as int) =~= all);
    while i < ls.len()
        invariant
            all == ls.deep_view(),
            all == text::lines(content@),
            i <= ls.len(),
            calendar_in(all) == calendar_in(all.subrange(i as int, all.len() as int)),
        decreases ls.len() - i,
    {
        let ghost rest = all.subrange(i as int, all.len() as int);
        proof {
            assert(rest[0] == ls@[i as int]@);
            assert(rest.drop_first() =~= all.subrange(i + 1, all.len() as int));
        }
        if let Some(when) = text::strip_prefix(text::trimmed(ls[i]), "OnCalendar=") {
            return Some(when.to_owned());
        }
        i = i + 1;
    }
    None
}

/// Stops a timer and keeps it from starting again.
pub open spec fn halt(stem: Seq<char>) -> Seq<StepModel> {
    seq![plan::attempt(timer_command("stop"@, stem)), plan::attempt(timer_command("disable"@, stem))]
}

/// Removes a file without words of its own for a failure.
pub open spec fn dropped(path: Seq<char>) -> StepModel {
    StepModel::RemoveFile { path, failure: None }
}

/// The steps, where the condition holds.
pub open spec fn only_if(condition: bool, steps: Seq<StepModel>) -> Seq<StepModel> {
    if condition {
        steps
    } else {
        Seq::empty()
    }
}

/// A file of the older, unnamed schedule is there.
pub open spec fn has_legacy(home: Seq<char>, present: Seq<Seq<char>>) -> bool {
    present.contains(service_of(home, legacy_stem())) || present.contains(timer_of(home, legacy_stem()))
}

/// Removes the older, unnamed schedule, where one of its files is there.
pub open spec fn legacy_removal(home: Seq<char>, present: Seq<Seq<char>>) -> Seq<StepModel> {
    let svc = service_of(home, legacy_stem());
    let tmr = timer_of(home, legacy_stem());
    only_if(
        has_legacy(home, present),
        halt(legacy_stem()) + only_if(present.contains(tmr), seq![dropped(tmr)]) + only_if(
            present.contains(svc),
            seq![dropped(svc)],
        ) + seq![plan::attempt(reload())],
    )
}

/// Adds the steps that stop a timer and keep it from starting again.
pub fn put_halt(steps: &mut Vec<Step>, stem: &str)
    ensures
        final(steps).deep_view() == old(steps).deep_view() + halt(stem@),
{
    names::put(steps, plan::attempt_step(on_timer("stop", stem)));
    names::put(steps, plan::attempt_step(on_timer("disable", stem)));
    assert(steps.deep_view() =~= old(steps).deep_view() + halt(stem@));
}

fn put_dropped(steps: &mut Vec<Step>, path: &str)
    ensures
        final(steps).deep_view() == old(steps).deep_view().push(dropped(path@)),
{
    names::put(steps, Step::RemoveFile { path: path.to_owned(), failure: None });
}

/// Adds the removal of the older, unnamed schedule, and says whether there is one.
pub fn remove_legacy_systemd_schedule(steps: &mut Vec<Step>, home: &str, present: &Vec<String>) -> (r: bool)
    ensures
        final(steps).deep_view() == old(steps).deep_view() + legacy_removal(home@, present.deep_view()),
        r == has_legacy(home@, present.deep_view()),
{
    let svc = legacy_service_path(home);
    let tmr = legacy_timer_path(home);
    let has_svc = plan::is_present(present, svc.as_str());
    let has_tmr = plan::is_present(present, tmr.as_str());
    if !has_svc && !has_tmr {
        assert(steps.deep_view() =~= old(steps).deep_view() + legacy_removal(home@, present.deep_view()));
        return false;
    }
    put_halt(steps, "worktree-gc");
    if has_tmr {
        put_dropped(steps, tmr.as_str());
    }
    if has_svc {
        put_dropped(steps, svc.as_str());
    }
    names::put(steps, plan::attempt_step(reload_command()));
    assert(steps.deep_view() =~= old(steps).deep_view() + legacy_removal(home@, present.deep_view()));
    true
}

/// What is done to units of one stem once their text is known: they are written, systemd reads
/// them, and the timer is started.
pub open spec fn activation(
    svc: Seq<char>,
    tmr: Seq<char>,
    service: Seq<char>,
    timer: Seq<char>,
    stem: Seq<char>,
) -> Seq<StepModel> {
    seq![
        plan::written(svc, service),
        plan::written(tmr, timer),
        plan::demand(reload(), "Failed to run systemctl daemon-reload"@, "systemctl daemon-reload failed"@),
        plan::demand(enable(stem), "Failed to enable timer"@, "systemctl enable failed"@),
    ]
}

/// Adds the steps that write the units of one stem and start their timer.
pub fn put_activation(steps: &mut Vec<Step>, svc: &str, tmr: &str, service: String, timer: String, stem: &str)
    ensures
        final(steps).deep_view() == old(steps).deep_view() + activation(svc@, tmr@, service@, timer@, stem@),
{
    let ghost s = service@;
    let ghost t = timer@;
    names::put(steps, plan::write_step(svc, service));
    names::put(steps, plan::write_step(tmr, timer));
    names::put(
        steps,
        plan::demand_step(
            reload_command(),
            "Failed to run systemctl daemon-reload",
            "systemctl daemon-reload failed",
        ),
    );
    names::put(
        steps,
        plan::demand_step(enable_command(stem), "Failed to enable timer", "systemctl enable failed"),
    );
    assert(steps.deep_view() =~= old(steps).deep_view() + activation(svc@, tmr@, s, t, stem@));
}

/// What is shown of a schedule that was installed.
pub open spec fn installed_lines(
    svc: Seq<char>,
    tmr: Seq<char>,
    exe: Seq<char>,
    name: Seq<char>,
    hour: u8,
    minute: u8,
) -> Seq<StepModel> {
    seq![
        StepModel::Show(ui::one(""@, ui::span("✓ Schedule installed (systemd)"@, Style::Success))),
        plan::shown("Name"@, ui::span(name, Style::Name)),
        plan::shown("Service"@, ui::span(svc, Style::Path)),
        plan::shown("Timer"@, ui::span(tmr, Style::Path)),
        plan::shown("Binary"@, ui::span(exe, Style::Path)),
        plan::shown("Time"@, ui::span(platform::daily(hour as nat, minute as nat), Style::Value)),
    ]
}

/// The directories that an installation makes: that of the units and that of the logs.
pub open spec fn directories(home: Seq<char>) -> Seq<StepModel> {
    seq![
        StepModel::CreateDir { path: units_dir(home) },
        StepModel::CreateDir { path: platform::log_dir_of(home) },
    ]
}

/// Adds the directories that an installation makes.
pub fn put_directories(steps: &mut Vec<Step>, home: &str)
    ensures
        final(steps).deep_view() == old(steps).deep_view() + directories(home@),
{
    names::put(steps, Step::CreateDir { path: systemd_dir(home) });
    names::put(steps, Step::CreateDir { path: platform::log_dir(home) });
    assert(steps.deep_view() =~= old(steps).deep_view() + directories(home@));
}

/// How a schedule is installed.
pub open spec fn install_plan(
    home: Seq<char>,
    exe: Seq<char>,
    name: Seq<char>,
    args: Seq<Seq<char>>,
    hour: u8,
    minute: u8,
    present: Seq<Seq<char>>,
) -> Seq<StepModel> {
    let stem = stem_for(name);
    let svc = service_of(home, stem);
    let tmr = timer_of(home, stem);
    directories(home) + only_if(
        name == "default"@,
        legacy_removal(home, present),
    ) + halt(stem) + activation(
        svc,
        tmr,
        text::unlines(service_lines(service_description(name), quoted_command(exe, args))),
        text::unlines(timer_lines(timer_description(name), hour, minute)),
        stem,
    ) + installed_lines(svc, tmr, exe, name, hour, minute)
}

/// The steps that install a schedule which runs the binary with these arguments. `present` are the
/// files that are there.
pub fn install_with_args(
    home: &str,
    exe: &str,
    name: &str,
    run_args: &Vec<String>,
    hour: u8,
    minute: u8,
    present: &Vec<String>,
) -> (r: Vec<Step>)
    ensures
        r.deep_view() == install_plan(home@, exe@, name@, run_args.deep_view(), hour, minute, present.deep_view()),
{
    let stem = stemmed(name);
    let svc = service_at(home, stem.as_str());
    let tmr = timer_at(home, stem.as_str());
    let mut steps: Vec<Step> = Vec::new();
    put_directories(&mut steps, home);
    assert(steps.deep_view() =~= directories(home@));
    if text::same(name, "default") {
        remove_legacy_systemd_schedule(&mut steps, home, present);
    }
    put_halt(&mut steps, stem.as_str());
    let service = render_systemd_service(name, exe, run_args);
    let timer = render_systemd_timer(name, hour, minute);
    put_activation(&mut steps, svc.as_str(), tmr.as_str(), service, timer, stem.as_str());
    let ghost before = steps.deep_view();
    plan::show(&mut steps, Line::one("", ui::success("✓ Schedule installed (systemd)")));
    plan::show_value(&mut steps, "Name", ui::name(name));
    plan::show_value(&mut steps, "Service", ui::path(svc.as_str()));
    plan::show_value(&mut steps, "Timer", ui::path(tmr.as_str()));
    plan::show_value(&mut steps, "Binary", ui::path(exe));
    plan::show_value(&mut steps, "Time", ui::value(platform::daily_text(hour as u32, minute as u32).as_str()));
    proof {
        assert(steps.deep_view() =~= before + installed_lines(svc@, tmr@, exe@, name@, hour, minute));
        assert(steps.deep_view() =~= install_plan(
            home@,
            exe@,
            name@,
            run_args.deep_view(),
            hour,
            minute,
            present.deep_view(),
        ));
    }
    steps
}

/// A file that is removed and named.
pub open spec fn deleted(path: Seq<char>) -> Seq<StepModel> {
    seq![dropped(path), plan::shown("Deleted"@, ui::span(path, Style::Path))]
}

/// How a schedule is removed: its units, and with the one of the usual name the older, unnamed one.
pub open spec fn uninstall_plan(home: Seq<char>, name: Seq<char>, present: Seq<Seq<char>>) -> Seq<StepModel> {
    let stem = stem_for(name);
    let svc = service_of(home, stem);
    let tmr = timer_of(home, stem);
    let older = name == "default"@ && has_legacy(home, present);
    halt(stem) + only_if(present.contains(tmr), deleted(tmr)) + only_if(present.contains(svc), deleted(svc)) + only_if(
        older,
        legacy_removal(home, present).push(
            StepModel::Show(ui::one(""@, ui::span("✓ Legacy schedule removed"@, Style::Success))),
        ),
    ) + seq![plan::attempt(reload())] + if present.contains(tmr) || present.contains(svc) || older {
        seq![
            StepModel::Show(ui::one(""@, ui::span("✓ Schedule removed"@, Style::Success))),
            plan::shown("Name"@, ui::span(name, Style::Name)),
        ]
    } else {
        seq![
            StepModel::Show(
                ui::one(""@, ui::span("No schedule installed (unit files not found)"@, Style::Warning)),
            ),
        ]
    }
}

fn put_deleted(steps: &mut Vec<Step>, path: &str)
    ensures
        final(steps).deep_view() == old(steps).deep_view() + deleted(path@),
{
    put_dropped(steps, path);
    plan::show_value(steps, "Deleted", ui::path(path));
    assert(steps.deep_view() =~= old(steps).deep_view() + deleted(path@));
}

/// The steps that remove a schedule. `present` are the files that are there.
pub fn uninstall(home: &str, name: &str, present: &Vec<String>) -> (r: Vec<Step>)
    ensures
        r.deep_view() == uninstall_plan(home@, name@, present.deep_view()),
{
    let stem = stemmed(name);
    let svc = service_at(home, stem.as_str());
    let tmr = timer_at(home, stem.as_str());
    let mut steps: Vec<Step> = Vec::new();
    let mut removed = false;
    assert(steps.deep_view() =~= Seq::empty());
    put_halt(&mut steps, stem.as_str());
    if plan::is_present(present, tmr.as_str()) {
        put_deleted(&mut steps, tmr.as_str());
        removed = true;
    }
    if plan::is_present(present, svc.as_str()) {
        put_deleted(&mut steps, svc.as_str());
        removed = true;
    }
    if text::same(name, "default") {
        if remove_legacy_systemd_schedule(&mut steps, home, present) {
            plan::show(&mut steps, Line::one("", ui::success("✓ Legacy schedule removed")));
            removed = true;
        }
    }
    names::put(&mut steps, plan::attempt_step(reload_command()));
    if removed {
        plan::show(&mut steps, Line::one("", ui::success("✓ Schedule removed")));
        plan::show_value(&mut steps, "Name", ui::name(name));
    } else {
        plan::show(&mut steps, Line::one("", ui::warning("No schedule installed (unit files not found)")));
    }
    assert(steps.deep_view() =~= uninstall_plan(home@, name@, present.deep_view()));
    steps
}

/// The next run, as the second line of the listing tells it.
pub open spec fn next_run(timers: OutcomeModel) -> Option<Seq<char>> {
    match timers {
        OutcomeModel::NotStarted { .. } => None,
        OutcomeModel::Exited { stdout, .. } => if text::lines(stdout).len() > 1 {
            Some(text::lines(stdout)[1])
        } else {
            None
        },
    }
}

/// The next run, as the second line of the listing tells it.
pub fn next_run_text(timers: &Outcome) -> (r: Option<String>)
    ensures
        r.deep_view() == next_run(timers@),
{
    match timers {
        Outcome::NotStarted { .. } => None,
        Outcome::Exited { stdout, .. } => {
            let ls = text::split_lines(stdout.as_str());
            if ls.len() > 1 {
                assert(ls.deep_view()[1] == ls@[1]@);
                Some(ls[1].to_owned())
            } else {
                None
            }
        },
    }
}

/// A labelled value under a schedule, where there is one.
pub open spec fn detail(label: Seq<char>, value: Option<Seq<char>>) -> Seq<Seq<SpanModel>> {
    match value {
        Some(value) => seq![ui::two("    "@, ui::label_of(label), ui::span(value, Style::Value))],
        None => Seq::empty(),
    }
}

/// The two files of a schedule.
pub open spec fn file_lines(svc: Seq<char>, tmr: Seq<char>) -> Seq<Seq<SpanModel>> {
    seq![
        ui::two("    "@, ui::label_of("Service"@), ui::span(svc, Style::Path)),
        ui::two("    "@, ui::label_of("Timer"@), ui::span(tmr, Style::Path)),
    ]
}

/// The state of a schedule whose timer file is there.
pub open spec fn installed_report(
    name: Seq<char>,
    svc: Seq<char>,
    tmr: Seq<char>,
    content: Result<Seq<char>, Seq<char>>,
    active: OutcomeModel,
    timers: OutcomeModel,
) -> ReportModel {
    match active {
        OutcomeModel::NotStarted { cause } => ReportModel::failed(
            Seq::empty(),
            ErrorModel::caused("Failed to check timer status"@, cause),
        ),
        OutcomeModel::Exited { stdout, .. } => {
            let top = seq![
                ui::two("  "@, ui::span(name, Style::Name), ui::span(text::trim(stdout), Style::Value)),
            ] + file_lines(svc, tmr);
            match content {
                Err(e) => ReportModel::failed(top, ErrorModel::plain(e)),
                Ok(content) => ReportModel::fine(
                    top + detail("Schedule"@, calendar_in(text::lines(content))) + detail(
                        "Next run"@,
                        next_run(timers),
                    ),
                ),
            }
        },
    }
}

/// The state of one schedule.
pub open spec fn unit_report(home: Option<Seq<char>>, name: Seq<char>, unit: UnitModel) -> ReportModel {
    match (schedule_names::problem(name), home) {
        (Some(complaint), _) => ReportModel::failed(Seq::empty(), ErrorModel::plain(complaint)),
        (None, None) => ReportModel::failed(Seq::empty(), ErrorModel::plain(platform::no_home())),
        (None, Some(home)) => {
            let svc = service_of(home, stem_for(name));
            let tmr = timer_of(home, stem_for(name));
            match unit.file {
                FileModel::Absent => ReportModel::fine(
                    seq![
                        ui::two("  "@, ui::span(name, Style::Name), ui::span("not installed"@, Style::Warning)),
                    ] + file_lines(svc, tmr),
                ),
                FileModel::Unreadable(e) => installed_report(name, svc, tmr, Err(e), unit.active, unit.timers),
                FileModel::Content(content) => installed_report(
                    name,
                    svc,
                    tmr,
                    Ok(content),
                    unit.active,
                    unit.timers,
                ),
            }
        },
    }
}

fn put_files(lines: &mut Vec<Line>, svc: &str, tmr: &str)
    ensures
        final(lines).deep_view() == old(lines).deep_view() + file_lines(svc@, tmr@),
{
    names::put(lines, Line::two("    ", ui::label("Service"), ui::path(svc)));
    names::put(lines, Line::two("    ", ui::label("Timer"), ui::path(tmr)));
    assert(lines.deep_view() =~= old(lines).deep_view() + file_lines(svc@, tmr@));
}

fn put_detail(lines: &mut Vec<Line>, label: &str, value: Option<String>)
    ensures
        final(lines).deep_view() == old(lines).deep_view() + detail(label@, value.deep_view()),
{
    if let Some(value) = &value {
        names::put(lines, Line::two("    ", ui::label(label), ui::value(value.as_str())));
    }
    assert(lines.deep_view() =~= old(lines).deep_view() + detail(label@, value.deep_view()));
}

fn installed_status(
    name: &str,
    svc: &str,
    tmr: &str,
    content: Result<&str, &str>,
    active: &Outcome,
    timers: &Outcome,
) -> (r: Report)
    ensures
        r@ == installed_report(
            name@,
            svc@,
            tmr@,
            match content {
                Ok(content) => Ok(content@),
                Err(e) => Err(e@),
            },
            active@,
            timers@,
        ),
{
    let mut lines: Vec<Line> = Vec::new();
    match active {
        Outcome::NotStarted { cause } => Report {
            lines,
            error: Some(Error::caused_by("Failed to check timer status".to_owned(), cause.clone())),
        },
        Outcome::Exited { stdout, .. } => {
            let state = text::trimmed(stdout.as_str());
            names::put(&mut lines, Line::two("  ", ui::name(name), ui::value(state)));
            put_files(&mut lines, svc, tmr);
            let content = match content {
                Ok(content) => content,
                Err(e) => return Report { lines, error: Some(Error::new(e.to_owned())) },
            };
            put_detail(&mut lines, "Schedule", extract_systemd_timer_schedule(content));
            put_detail(&mut lines, "Next run", next_run_text(timers));
            Report { lines, error: None }
        },
    }
}

/// The state of one schedule, from what was found about it.
pub fn unit_status(home: Option<&str>, name: &str, file: &FileState, active: &Outcome, timers: &Outcome) -> (r: Report)
    ensures
        r@ == unit_report(
            home.deep_view(),
            name@,
            (UnitModel { name: name@, file: file@, active: active@, timers: timers@ }),
        ),
{
    let stem = match unit_stem(name) {
        Ok(stem) => stem,
        Err(e) => return Report { lines: Vec::new(), error: Some(e) },
    };
    let home = match home {
        Some(home) => home,
        None => return Report {
            lines: Vec::new(),
            error: Some(Error::new("Cannot determine home directory".to_owned())),
        },
    };
    let svc = service_at(home, stem.as_str());
    let tmr = timer_at(home, stem.as_str());
    match file {
        FileState::Absent => {
            let mut lines: Vec<Line> = Vec::new();
            names::put(&mut lines, Line::two("  ", ui::name(name), ui::warning("not installed")));
            put_files(&mut lines, svc.as_str(), tmr.as_str());
            Report { lines, error: None }
        },
        FileState::Unreadable(e) => installed_status(
            name,
            svc.as_str(),
            tmr.as_str(),
            Err(e.as_str()),
            active,
            timers,
        ),
        FileState::Content(content) => installed_status(
            name,
            svc.as_str(),
            tmr.as_str(),
            Ok(content.as_str()),
            active,
            timers,
        ),
    }
}

proof fn lemma_unspaced_trim(line: Seq<char>)
    requires
        line.len() > 0,
        !text::is_space(line[0]),
        !text::is_space(line.last()),
    ensures
        text::trim(line) == line,
{
    text::lemma_trim_padded(Seq::empty(), line);
    assert(Seq::<char>::empty() + line =~= line);
}

proof fn lemma_calendar_line(hour: u8, minute: u8)
    ensures
        ({
            let line = "OnCalendar="@ + calendar(hour, minute);
            &&& text::is_line(line)
            &&& text::trim(line) == line
            &&& text::has_prefix(line, "OnCalendar="@)
            &&& text::after(line, "OnCalendar="@.len() as int) == calendar(hour, minute)
        }),
{
    let when = calendar(hour, minute);
    let line = "OnCalendar="@ + when;
    let h = text::two_digits(hour as nat);
    let m = text::two_digits(minute as nat);
    reveal_strlit("OnCalendar=");
    reveal_strlit("*-*-* ");
    reveal_strlit(":");
    reveal_strlit(":00");
    reveal_strlit("0");
    text::lemma_decimal_reads_back(hour as nat);
    text::lemma_decimal_reads_back(minute as nat);
    assert forall|i: int| 0 <= i < h.len() implies text::is_digit(#[trigger] h[i]) by {
        let d = text::decimal(hour as nat);
        if hour < 10 {
            if i > 0 {
                assert(h[i] == d[i - 1]);
            }
        } else {
            assert(h[i] == d[i]);
        }
    }
    assert forall|i: int| 0 <= i < m.len() implies text::is_digit(#[trigger] m[i]) by {
        let d = text::decimal(minute as nat);
        if minute < 10 {
            if i > 0 {
                assert(m[i] == d[i - 1]);
            }
        } else {
            assert(m[i] == d[i]);
        }
    }
    assert(line =~= "OnCalendar="@ + "*-*-* "@ + h + ":"@ + m + ":00"@);
    assert forall|i: int| 0 <= i < line.len() implies line[i] != '\n' by {
        if 17 <= i < 17 + h.len() {
            assert(line[i] == h[i - 17]);
        } else if 18 + h.len() <= i < 18 + h.len() + m.len() {
            assert(line[i] == m[i - 18 - h.len()]);
        }
    }
    lemma_unspaced_trim(line);
    assert(line.subrange(0, 11) =~= "OnCalendar="@);
    assert(text::after(line, 11) =~= when);
}

proof fn lemma_other_line(line: Seq<char>)
    requires
        line.len() > 0,
        !text::is_space(line[0]),
        !text::is_space(line.last()),
        line[0] != 'O',
    ensures
        !text::has_prefix(text::trim(line), "OnCalendar="@),
{
    reveal_strlit("OnCalendar=");
    lemma_unspaced_trim(line);
    if text::has_prefix(line, "OnCalendar="@) {
        assert(line.subrange(0, 11)[0] == line[0]);
    }
}

/// The time that is written into a timer is read back from it, where its description is one line
/// of text that does not end in white space.
pub proof fn lemma_timer_tells_its_time(description: Seq<char>, hour: u8, minute: u8)
    requires
        forall|i: int| 0 <= i < description.len() ==> description[i] != '\n',
        description.len() > 0 ==> !text::is_space(description.last()),
    ensures
        calendar_in(text::lines(text::unlines(timer_lines(description, hour, minute)))) == Some(calendar(hour, minute)),
{
    let ls = timer_lines(description, hour, minute);
    reveal_strlit("[Unit]");
    reveal_strlit("Description=");
    reveal_strlit("");
    reveal_strlit("[Timer]");
    reveal_strlit("Persistent=true");
    reveal_strlit("[Install]");
    reveal_strlit("WantedBy=timers.target");
    reveal_strlit("OnCalendar=");
    lemma_calendar_line(hour, minute);
    assert forall|i: int| 0 <= i < ls[1].len() implies ls[1][i] != '\n' by {
        if i >= 12 {
            assert(ls[1][i] == description[i - 12]);
        }
    }
    if description.len() > 0 {
        assert(ls[1].last() == description.last());
    }
    assert(text::is_line(ls[0]) && text::is_line(ls[1]) && text::is_line(ls[2]) && text::is_line(ls[3]));
    assert(text::is_line(ls[4]) && text::is_line(ls[5]) && text::is_line(ls[6]) && text::is_line(ls[7]));
    assert(text::is_line(ls[8]));
    text::lemma_lines_of_unlines(ls);
    lemma_other_line(ls[0]);
    lemma_other_line(ls[1]);
    assert(text::trim(ls[2]) =~= Seq::empty());
    lemma_other_line(ls[3]);
    let l1 = ls.drop_first();
    let l2 = l1.drop_first();
    let l3 = l2.drop_first();
    let l4 = l3.drop_first();
    assert(l1[0] == ls[1] && l2[0] == ls[2] && l3[0] == ls[3] && l4[0] == ls[4]);
    assert(calendar_in(l4) == Some(calendar(hour, minute)));
    assert(calendar_in(l3) == calendar_in(l4));
    assert(calendar_in(l2) == calendar_in(l3));
    assert(calendar_in(l1) == calendar_in(l2));
}

/// The timer of a schedule tells the time that the schedule was given.
pub proof fn lemma_schedule_timer_tells_its_time(name: Seq<char>, hour: u8, minute: u8)
    requires
        schedule_names::problem(name) is None,
    ensures
        calendar_in(text::lines(text::unlines(timer_lines(timer_description(name), hour, minute)))) == Some(
            calendar(hour, minute),
        ),
{
    let d = timer_description(name);
    crate::defaults::lemma_accepted_names("schedule"@, name);
    reveal_strlit("Daily cleanup of merged git worktrees (");
    reveal_strlit(")");
    let n = "Daily cleanup of merged git worktrees ("@.len() as int;
    assert forall|i: int| 0 <= i < d.len() implies d[i] != '\n' by {
        if n <= i < n + name.len() {
            assert(d[i] == name[i - n]);
            assert(crate::defaults::may_stand_in_name(name[i - n]));
        }
    }
    assert(d.last() == ')');
    lemma_timer_tells_its_time(d, hour, minute);
}

proof fn lemma_escaped_injective(a: Seq<char>, b: Seq<char>)
    requires
        escaped(a) == escaped(b),
    ensures
        a == b,
    decreases a.len(),
{
    let x = escaped(a);
    if a.len() == 0 || b.len() == 0 {
        if a.len() > 0 {
            assert(x.len() > 0);
        }
        if b.len() > 0 {
            assert(escaped(b).len() > 0);
        }
        assert(a =~= b);
    } else {
        let p = escape(a.last());
        let q = escape(b.last());
        assert(x.last() == p.last());
        assert(x.last() == q.last());
        assert(a.last() == b.last());
        assert(escaped(a.drop_last()) =~= x.subrange(0, x.len() - p.len()));
        assert(escaped(b.drop_last()) =~= x.subrange(0, x.len() - q.len()));
        lemma_escaped_injective(a.drop_last(), b.drop_last());
        assert(a =~= a.drop_last().push(a.last()));
        assert(b =~= b.drop_last().push(b.last()));
    }
}

/// No two arguments are written the same way.
pub proof fn lemma_quoting_keeps_arguments_apart(a: Seq<char>, b: Seq<char>)
    requires
        quoted(a) == quoted(b),
    ensures
        a == b,
{
    reveal_strlit("'");
    let x = quoted(a);
    if all_safe(a) != all_safe(b) {
        assert(x[0] == '\'');
        assert(!is_safe(x[0]));
    } else if !all_safe(a) {
        assert(escaped(a) =~= x.subrange(1, x.len() - 1));
        assert(escaped(b) =~= x.subrange(1, x.len() - 1));
        lemma_escaped_injective(a, b);
    }
}

} // verus!
