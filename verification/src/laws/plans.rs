//! What the plans of the schedulers do: which files they write and remove, what stands in them, and
//! what is run.
use crate::command::CommandModel;
use crate::error::ErrorModel;
use crate::launchd;
use crate::laws::schedules;
use crate::laws::texts;
use crate::plan;
use crate::plan::{FailureModel, StepModel};
use crate::platform;
use crate::platform::HostModel;
use crate::platform_scheduler;
use crate::plist;
use crate::schedule;
use crate::scheduler;
use crate::systemd;
use crate::text;
use vstd::prelude::*;

verus! {

/// The step runs the program with the arguments, whatever else it says.
pub open spec fn runs(step: StepModel, program: Seq<char>, args: Seq<Seq<char>>) -> bool {
    step matches StepModel::Run { command, .. } && command == (CommandModel { program, args })
}

/// The step runs the program with the arguments, and the plan goes no further where that fails.
pub open spec fn insists_on(step: StepModel, program: Seq<char>, args: Seq<Seq<char>>) -> bool {
    step matches StepModel::Run { command, not_started: Some(_), on_failure: FailureModel::Stop(_) } && command == (
    CommandModel { program, args })
}

/// The step writes the text to the file.
pub open spec fn writes(step: StepModel, file: Seq<char>, text: Seq<char>) -> bool {
    step matches StepModel::WriteFile { path, content, failure } && path == file && content == text && failure
        == "Failed to write "@ + file
}

/// The step makes the directory.
pub open spec fn makes(step: StepModel, dir: Seq<char>) -> bool {
    step matches StepModel::CreateDir { path } && path == dir
}

/// The step removes the file.
pub open spec fn removes(step: StepModel, file: Seq<char>) -> bool {
    step matches StepModel::RemoveFile { path, .. } && path == file
}

/// Some step removes the file.
pub open spec fn has_removal(steps: Seq<StepModel>, file: Seq<char>) -> bool {
    exists|i: int| 0 <= i < steps.len() && removes(#[trigger] steps[i], file)
}

/// The machine has what a schedule needs.
pub open spec fn is_ready(host: HostModel, home: Seq<char>, exe: Seq<char>) -> bool {
    host.home == Some(home) && schedules::is_home(home) && host.exe == Ok::<_, Seq<char>>(exe)
}

/// A schedule is installed where the machine can have one, both names are good and the machine tells
/// its home directory and the program; otherwise the first thing that is missing is named.
pub proof fn lemma_schedule_is_installed_where_it_can_be(
    host: HostModel,
    name: Seq<char>,
    workspace: Seq<char>,
    hour: u8,
    minute: u8,
    present: Seq<Seq<char>>,
)
    ensures
        ({
            let r = platform_scheduler::installation(host, name, workspace, hour, minute, present);
            &&& r is Ok <==> host.platform !is Unsupported && schedules::good_name(workspace) && host.exe is Ok
                && schedules::good_name(name) && name != "daily"@ && host.home is Some
            &&& host.platform is Unsupported ==> (r matches Err(e) && e.text
                == "Scheduled execution is not supported on this platform. Supported: macOS (launchd), Linux (systemd)."@)
            &&& host.platform !is Unsupported && schedules::good_name(workspace) && (host.exe matches Err(cause))
                ==> (r matches Err(e) && e.text == "Cannot determine binary path"@ && e.cause == Some(host.exe->Err_0))
            &&& host.platform !is Unsupported && schedules::good_name(workspace) && host.exe is Ok
                && schedules::good_name(name) && name != "daily"@ && host.home is None ==> (r matches Err(e) && e.text
                == "Cannot determine home directory"@)
        }),
        ({
            let r = platform_scheduler::removal(host, name, present);
            &&& r is Ok <==> host.platform !is Unsupported && schedules::good_name(name) && name != "daily"@
                && host.home is Some
            &&& host.platform is Unsupported ==> (r matches Err(e) && e.text
                == "Scheduled execution is not supported on this platform."@)
        }),
{
    schedules::lemma_good_names_are_taken("workspace"@, workspace);
    schedules::lemma_good_names_are_taken("schedule"@, name);
}

/// Under systemd a schedule is installed by making its directories, stopping an older timer of its
/// name, writing its service and its timer, and starting the timer.
pub proof fn lemma_systemd_schedule_is_written_and_started(
    host: HostModel,
    home: Seq<char>,
    exe: Seq<char>,
    name: Seq<char>,
    workspace: Seq<char>,
    hour: u8,
    minute: u8,
    present: Seq<Seq<char>>,
)
    requires
        host.platform is Systemd,
        is_ready(host, home, exe),
        schedules::good_name(name),
        name != "daily"@,
        schedules::good_name(workspace),
    ensures
        platform_scheduler::installation(host, name, workspace, hour, minute, present) matches Ok(steps) && {
            let n = steps.len();
            let unit = "worktree-gc-"@ + name + ".timer"@;
            &&& n >= 14
            &&& makes(steps[0], home + "/.config/systemd/user"@)
            &&& makes(steps[1], home + "/.local/share/worktree-gc"@)
            &&& runs(steps[n - 12], "systemctl"@, seq!["--user"@, "stop"@, unit])
            &&& runs(steps[n - 11], "systemctl"@, seq!["--user"@, "disable"@, unit])
            &&& writes(
                steps[n - 10],
                schedules::service_file(home, name),
                text::unlines(
                    systemd::service_lines(
                        systemd::service_description(name),
                        systemd::quoted(exe) + " run --workspace "@ + workspace,
                    ),
                ),
            )
            &&& writes(
                steps[n - 9],
                schedules::timer_file(home, name),
                text::unlines(systemd::timer_lines(systemd::timer_description(name), hour, minute)),
            )
            &&& insists_on(steps[n - 8], "systemctl"@, seq!["--user"@, "daemon-reload"@])
            &&& insists_on(steps[n - 7], "systemctl"@, seq!["--user"@, "enable"@, "--now"@, unit])
            &&& name != "default"@ ==> n == 14
        },
{
    let steps = lemma_systemd_steps(host, home, exe, name, workspace, hour, minute, present);
    schedules::lemma_files_lie_in_the_home_directory(home, name);
    lemma_run_command(exe, workspace);
}

proof fn lemma_systemd_steps(
    host: HostModel,
    home: Seq<char>,
    exe: Seq<char>,
    name: Seq<char>,
    workspace: Seq<char>,
    hour: u8,
    minute: u8,
    present: Seq<Seq<char>>,
) -> (steps: Seq<StepModel>)
    requires
        host.platform is Systemd,
        host.home == Some(home),
        host.exe == Ok::<_, Seq<char>>(exe),
        schedules::good_name(name),
        name != "daily"@,
        schedules::good_name(workspace),
    ensures
        platform_scheduler::installation(host, name, workspace, hour, minute, present) == Ok::<_, ErrorModel>(steps),
        ({
            let n = steps.len();
            let stem = systemd::stem_for(name);
            let args = platform_scheduler::run_args(workspace);
            &&& n >= 14
            &&& name != "default"@ ==> n == 14
            &&& steps[0] == (StepModel::CreateDir { path: systemd::units_dir(home) })
            &&& steps[1] == (StepModel::CreateDir { path: platform::log_dir_of(home) })
            &&& steps[n - 12] == plan::attempt(systemd::timer_command("stop"@, stem))
            &&& steps[n - 11] == plan::attempt(systemd::timer_command("disable"@, stem))
            &&& steps[n - 10] == plan::written(
                systemd::service_of(home, stem),
                text::unlines(
                    systemd::service_lines(systemd::service_description(name), systemd::quoted_command(exe, args)),
                ),
            )
            &&& steps[n - 9] == plan::written(
                systemd::timer_of(home, stem),
                text::unlines(systemd::timer_lines(systemd::timer_description(name), hour, minute)),
            )
            &&& steps[n - 8] == plan::demand(
                systemd::reload(),
                "Failed to run systemctl daemon-reload"@,
                "systemctl daemon-reload failed"@,
            )
            &&& steps[n - 7] == plan::demand(
                systemd::enable(stem),
                "Failed to enable timer"@,
                "systemctl enable failed"@,
            )
        }),
{
    schedules::lemma_good_names_are_taken("workspace"@, workspace);
    schedules::lemma_good_names_are_taken("schedule"@, name);
    systemd::install_plan(home, exe, name, platform_scheduler::run_args(workspace), hour, minute, present)
}

/// The command of a schedule: the program, quoted where it must be, and the run of its workspace.
pub proof fn lemma_run_command(exe: Seq<char>, workspace: Seq<char>)
    requires
        schedules::good_name(workspace),
    ensures
        systemd::quoted_command(exe, platform_scheduler::run_args(workspace)) == systemd::quoted(exe)
            + " run --workspace "@ + workspace,
{
    let args = platform_scheduler::run_args(workspace);
    let q = systemd::all_quoted(args);
    assert(systemd::all_safe(workspace)) by {
        assert forall|i: int| 0 <= i < workspace.len() implies systemd::is_safe(#[trigger] workspace[i]) by {
            if i > 0 {
                assert(schedules::letter(workspace[i]) || workspace[i] == '-' || workspace[i] == '_');
            }
        }
    }
    reveal_strlit("run");
    reveal_strlit("--workspace");
    reveal_strlit(" ");
    reveal_strlit(" run --workspace ");
    assert(systemd::all_safe("run"@));
    assert(systemd::all_safe("--workspace"@));
    assert(q =~= args);
    reveal_with_fuel(text::join, 4);
    let all = text::join(q, " "@);
    assert(q.drop_last().drop_last() =~= seq!["run"@]);
    assert(q.drop_last() =~= seq!["run"@, "--workspace"@]);
    assert(all =~= "run"@ + " "@ + "--workspace"@ + " "@ + workspace);
    assert(systemd::quoted(exe) + " "@ + all =~= systemd::quoted(exe) + " run --workspace "@ + workspace);
}

/// Under launchd a schedule is installed by making its directories, unloading an older job of its
/// name, writing its file and loading it.
pub proof fn lemma_launchd_schedule_is_written_and_loaded(
    host: HostModel,
    home: Seq<char>,
    exe: Seq<char>,
    name: Seq<char>,
    workspace: Seq<char>,
    hour: u8,
    minute: u8,
    present: Seq<Seq<char>>,
)
    requires
        host.platform is Launchd,
        is_ready(host, home, exe),
        schedules::good_name(name),
        name != "daily"@,
        schedules::good_name(workspace),
    ensures
        platform_scheduler::installation(host, name, workspace, hour, minute, present) matches Ok(steps) && {
            let n = steps.len();
            let file = schedules::plist_file(home, name);
            &&& n >= 9
            &&& makes(steps[0], home + "/Library/LaunchAgents"@)
            &&& makes(steps[1], home + "/.local/share/worktree-gc"@)
            &&& present.contains(file) ==> n >= 10 && runs(steps[n - 8], "launchctl"@, seq!["unload"@, file])
            &&& writes(
                steps[n - 7],
                file,
                text::unlines(
                    plist::plist_lines(
                        "com.worktree-gc."@ + name,
                        exe,
                        seq!["run"@, "--workspace"@, workspace],
                        host.search_path,
                        home + "/.local/share/worktree-gc/"@ + name + "-launchd-stdout.log"@,
                        home + "/.local/share/worktree-gc/"@ + name + "-launchd-stderr.log"@,
                        hour,
                        minute,
                    ),
                ),
            )
            &&& insists_on(steps[n - 6], "launchctl"@, seq!["load"@, file])
            &&& name != "default"@ && !present.contains(file) ==> n == 9
        },
{
    schedules::lemma_good_names_are_taken("workspace"@, workspace);
    schedules::lemma_good_names_are_taken("schedule"@, name);
    schedules::lemma_files_lie_in_the_home_directory(home, name);
}

/// A file of launchd holds what was given, each thing in its place: the label, the program and its
/// arguments, the search path, the time and the two logs; every other line is the same in all files.
pub proof fn lemma_plist_says_what_was_given(
    label: Seq<char>,
    exe: Seq<char>,
    args: Seq<Seq<char>>,
    path: Seq<char>,
    stdout_log: Seq<char>,
    stderr_log: Seq<char>,
    hour: u8,
    minute: u8,
)
    ensures
        ({
            let ls = plist::plist_lines(label, exe, args, path, stdout_log, stderr_log, hour, minute);
            let k = 10 + args.len() as int;
            &&& ls.len() == k + 22
            &&& ls[4] == "    <key>Label</key>"@ && ls[5] == "    <string>"@ + label + "</string>"@
            &&& ls[7] == "    <key>ProgramArguments</key>"@ && ls[8] == "    <array>"@
            &&& ls[9] == "        <string>"@ + exe + "</string>"@
            &&& forall|i: int| 0 <= i < args.len() ==> ls[10 + i] == "        <string>"@ + #[trigger] args[i] + "</string>"@
            &&& ls[k] == "    </array>"@
            &&& ls[k + 4] == "        <key>PATH</key>"@ && ls[k + 5] == "        <string>"@ + path + "</string>"@
            &&& ls[k + 8] == "    <key>StartCalendarInterval</key>"@
            &&& ls[k + 10] == "        <key>Hour</key>"@ && ls[k + 11] == "        <integer>"@ + text::decimal(
                hour as nat,
            ) + "</integer>"@
            &&& ls[k + 12] == "        <key>Minute</key>"@ && ls[k + 13] == "        <integer>"@ + text::decimal(
                minute as nat,
            ) + "</integer>"@
            &&& ls[k + 16] == "    <key>StandardOutPath</key>"@ && ls[k + 17] == "    <string>"@ + stdout_log
                + "</string>"@
            &&& ls[k + 18] == "    <key>StandardErrorPath</key>"@ && ls[k + 19] == "    <string>"@ + stderr_log
                + "</string>"@
        }),
{
    reveal_strlit("    ");
    reveal_strlit("        ");
    reveal_strlit("<string>");
    reveal_strlit("    <string>");
    reveal_strlit("        <string>");
    let ls = plist::plist_lines(label, exe, args, path, stdout_log, stderr_log, hour, minute);
    let k = 10 + args.len() as int;
    let given = plist::argument_lines(seq![exe] + args);
    assert("    "@ + "<string>"@ =~= "    <string>"@);
    assert("        "@ + "<string>"@ =~= "        <string>"@);
    assert(ls =~= plist::plist_top(label) + given + plist::plist_middle(path) + plist::plist_end(
        stdout_log,
        stderr_log,
        hour,
        minute,
    ));
    assert(ls[9] == given[0]);
    assert forall|i: int| 0 <= i < args.len() implies ls[10 + i] == "        <string>"@ + #[trigger] args[i]
        + "</string>"@ by {
        assert(ls[10 + i] == given[i + 1]);
        assert((seq![exe] + args)[i + 1] == args[i]);
    }
    assert(ls[k] == plist::plist_middle(path)[0]);
    assert(ls[k + 10] == plist::plist_end(stdout_log, stderr_log, hour, minute)[0]);
}

/// What is read back off a file of launchd is the time that was asked for.
pub proof fn lemma_plist_runs_at_its_time(
    home: Seq<char>,
    exe: Seq<char>,
    search_path: Seq<char>,
    name: Seq<char>,
    args: Seq<Seq<char>>,
    hour: u8,
    minute: u8,
)
    requires
        plist::stays_on_line(home),
        plist::stays_on_line(exe),
        plist::stays_on_line(search_path),
        forall|i: int| 0 <= i < args.len() ==> plist::stays_on_line(#[trigger] args[i]),
        schedules::good_name(name),
        name != "daily"@,
        hour < 24,
        minute < 60,
    ensures
        plist::time_in(launchd::schedule_plist(home, exe, search_path, name, args, hour, minute)) matches Some(when) && {
            &&& when.len() == 11
            &&& when.subrange(5, 11) == " daily"@
            &&& schedule::daily_time(when.subrange(0, 5)) == Some((hour, minute))
        },
{
    schedules::lemma_good_names_are_taken("schedule"@, name);
    launchd::lemma_installed_schedule_shows_its_time(home, exe, search_path, name, args, hour, minute);
    lemma_daily(hour, minute);
}

proof fn lemma_daily(hour: u8, minute: u8)
    requires
        hour < 24,
        minute < 60,
    ensures
        ({
            let when = platform::daily(hour as nat, minute as nat);
            &&& when.len() == 11
            &&& when.subrange(5, 11) == " daily"@
            &&& schedule::daily_time(when.subrange(0, 5)) == Some((hour, minute))
        }),
{
    let t = platform::clock(hour as nat, minute as nat);
    let when = platform::daily(hour as nat, minute as nat);
    reveal_strlit(" daily");
    texts::lemma_time_is_written_in_digits(hour as nat, minute as nat);
    texts::lemma_time_is_read_off_its_digits(t, hour, minute);
    assert(when.subrange(0, 5) =~= t);
    assert(when.subrange(5, 11) =~= " daily"@);
}

/// A schedule's own files are removed where they are there, and where one is named `default` those
/// of the older schedule too; no file is removed that is not there.
pub proof fn lemma_files_that_are_there_are_removed(
    host: HostModel,
    home: Seq<char>,
    name: Seq<char>,
    present: Seq<Seq<char>>,
    file: Seq<char>,
)
    requires
        host.platform !is Unsupported,
        host.home == Some(home),
        schedules::is_home(home),
        schedules::good_name(name),
        name != "daily"@,
    ensures
        platform_scheduler::removal(host, name, present) matches Ok(steps) && {
            let older = name == "default"@;
            &&& has_removal(steps, file) <==> present.contains(file) && if host.platform is Launchd {
                file == schedules::plist_file(home, name) || older && file == schedules::plist_file(home, "daily"@)
            } else {
                ||| file == schedules::timer_file(home, name)
                ||| file == schedules::service_file(home, name)
                ||| older && file == home + "/.config/systemd/user/worktree-gc.timer"@
                ||| older && file == home + "/.config/systemd/user/worktree-gc.service"@
            }
        },
{
    schedules::lemma_good_names_are_taken("schedule"@, name);
    schedules::lemma_files_lie_in_the_home_directory(home, name);
    if host.platform is Launchd {
        lemma_launchd_removal(home, name, present, file);
    } else {
        lemma_systemd_removal(home, name, present, file);
    }
}

proof fn lemma_removals_add_up(a: Seq<StepModel>, b: Seq<StepModel>, file: Seq<char>)
    ensures
        has_removal(a + b, file) <==> has_removal(a, file) || has_removal(b, file),
{
    if has_removal(a + b, file) {
        let i = choose|i: int| 0 <= i < (a + b).len() && removes(#[trigger] (a + b)[i], file);
        if i < a.len() {
            assert(removes(a[i], file));
        } else {
            assert(removes(b[i - a.len()], file));
        }
    }
    if has_removal(a, file) {
        let i = choose|i: int| 0 <= i < a.len() && removes(#[trigger] a[i], file);
        assert(removes((a + b)[i], file));
    }
    if has_removal(b, file) {
        let i = choose|i: int| 0 <= i < b.len() && removes(#[trigger] b[i], file);
        assert((a + b)[a.len() + i] == b[i]);
        assert(removes((a + b)[a.len() + i], file));
    }
}

proof fn lemma_launchd_removal(home: Seq<char>, name: Seq<char>, present: Seq<Seq<char>>, file: Seq<char>)
    ensures
        has_removal(launchd::uninstall_plan(home, name, present), file) <==> present.contains(file) && (file
            == launchd::plist_of(home, launchd::label_for(name)) || name == "default"@ && file == launchd::plist_of(
            home,
            launchd::legacy_label(),
        )),
{
    let plist = launchd::plist_of(home, launchd::label_for(name));
    let legacy = launchd::plist_of(home, launchd::legacy_label());
    let own = present.contains(plist);
    let older = name == "default"@ && present.contains(legacy);
    let a = if own {
        launchd::job_removal(plist, name)
    } else {
        Seq::empty()
    };
    let done = StepModel::Show(
        crate::ui::one(""@, crate::ui::span("✓ Legacy schedule removed"@, crate::ui::Style::Success)),
    );
    let b = if older {
        launchd::legacy_removal(home, present).push(done)
    } else {
        Seq::empty()
    };
    let all = launchd::uninstall_plan(home, name, present);
    let c = all.subrange((a + b).len() as int, all.len() as int);
    assert(all =~= a + b + c);
    lemma_removals_add_up(a + b, c, file);
    lemma_removals_add_up(a, b, file);
    assert(!has_removal(c, file)) by {
        if own || older {
            assert(c.len() == 0);
        } else {
            assert(c.len() == 1);
            assert(c[0] is Show);
        }
    }
    if own {
        assert(removes(a[1], plist));
        assert(has_removal(a, file) <==> file == plist);
    }
    if older {
        assert(b.len() == 3);
        assert(removes(b[1], legacy));
        assert(has_removal(b, file) <==> file == legacy);
    }
}

proof fn lemma_systemd_older_removal(home: Seq<char>, present: Seq<Seq<char>>, file: Seq<char>)
    ensures
        has_removal(systemd::legacy_removal(home, present), file) <==> present.contains(file) && (file
            == systemd::timer_of(home, systemd::legacy_stem()) || file == systemd::service_of(
            home,
            systemd::legacy_stem(),
        )),
{
    let svc = systemd::service_of(home, systemd::legacy_stem());
    let tmr = systemd::timer_of(home, systemd::legacy_stem());
    if systemd::has_legacy(home, present) {
        let a = systemd::halt(systemd::legacy_stem());
        let b = systemd::only_if(present.contains(tmr), seq![systemd::dropped(tmr)]);
        let c = systemd::only_if(present.contains(svc), seq![systemd::dropped(svc)]);
        let d = seq![plan::attempt(systemd::reload())];
        lemma_removals_add_up(a + b + c, d, file);
        lemma_removals_add_up(a + b, c, file);
        lemma_removals_add_up(a, b, file);
        if present.contains(tmr) {
            assert(removes(b[0], tmr));
        }
        if present.contains(svc) {
            assert(removes(c[0], svc));
        }
    }
}

proof fn lemma_systemd_removal(home: Seq<char>, name: Seq<char>, present: Seq<Seq<char>>, file: Seq<char>)
    ensures
        has_removal(systemd::uninstall_plan(home, name, present), file) <==> present.contains(file) && {
            ||| file == systemd::timer_of(home, systemd::stem_for(name))
            ||| file == systemd::service_of(home, systemd::stem_for(name))
            ||| name == "default"@ && file == systemd::timer_of(home, systemd::legacy_stem())
            ||| name == "default"@ && file == systemd::service_of(home, systemd::legacy_stem())
        },
{
    let stem = systemd::stem_for(name);
    let svc = systemd::service_of(home, stem);
    let tmr = systemd::timer_of(home, stem);
    let older = name == "default"@ && systemd::has_legacy(home, present);
    let done = StepModel::Show(
        crate::ui::one(""@, crate::ui::span("✓ Legacy schedule removed"@, crate::ui::Style::Success)),
    );
    let a = systemd::halt(stem);
    let b = systemd::only_if(present.contains(tmr), systemd::deleted(tmr));
    let c = systemd::only_if(present.contains(svc), systemd::deleted(svc));
    let d = systemd::only_if(older, systemd::legacy_removal(home, present).push(done));
    let e = seq![plan::attempt(systemd::reload())];
    let all = systemd::uninstall_plan(home, name, present);
    let f = all.subrange((a + b + c + d + e).len() as int, all.len() as int);
    assert(all =~= a + b + c + d + e + f);
    lemma_removals_add_up(a + b + c + d + e, f, file);
    lemma_removals_add_up(a + b + c + d, e, file);
    lemma_removals_add_up(a + b + c, d, file);
    lemma_removals_add_up(a + b, c, file);
    lemma_removals_add_up(a, b, file);
    lemma_systemd_older_removal(home, present, file);
    if older {
        let x = systemd::legacy_removal(home, present);
        assert(x.push(done) =~= x + seq![done]);
        lemma_removals_add_up(x, seq![done], file);
    }
    assert(!has_removal(f, file)) by {
        assert forall|i: int| 0 <= i < f.len() implies #[trigger] f[i] is Show by {}
    }
    if present.contains(tmr) {
        assert(removes(b[0], tmr));
    }
    if present.contains(svc) {
        assert(removes(c[0], svc));
    }
}

/// Installing a schedule removes no file, but for those of the older schedule, where they are there
/// and the schedule is named `default`.
pub proof fn lemma_installation_replaces_the_older_schedule(
    host: HostModel,
    home: Seq<char>,
    exe: Seq<char>,
    name: Seq<char>,
    workspace: Seq<char>,
    hour: u8,
    minute: u8,
    present: Seq<Seq<char>>,
    file: Seq<char>,
)
    requires
        host.platform !is Unsupported,
        is_ready(host, home, exe),
        schedules::good_name(name),
        name != "daily"@,
        schedules::good_name(workspace),
    ensures
        platform_scheduler::installation(host, name, workspace, hour, minute, present) matches Ok(steps) && {
            &&& has_removal(steps, file) <==> name == "default"@ && present.contains(file) && if host.platform is Launchd {
                file == schedules::plist_file(home, "daily"@)
            } else {
                ||| file == home + "/.config/systemd/user/worktree-gc.timer"@
                ||| file == home + "/.config/systemd/user/worktree-gc.service"@
            }
        },
{
    schedules::lemma_good_names_are_taken("workspace"@, workspace);
    schedules::lemma_good_names_are_taken("schedule"@, name);
    schedules::lemma_files_lie_in_the_home_directory(home, name);
    let args = platform_scheduler::run_args(workspace);
    if host.platform is Launchd {
        lemma_launchd_replacement(home, exe, host.search_path, name, args, hour, minute, present, file);
    } else {
        lemma_systemd_replacement(home, exe, name, args, hour, minute, present, file);
    }
}

proof fn lemma_launchd_replacement(
    home: Seq<char>,
    exe: Seq<char>,
    search_path: Seq<char>,
    name: Seq<char>,
    args: Seq<Seq<char>>,
    hour: u8,
    minute: u8,
    present: Seq<Seq<char>>,
    file: Seq<char>,
)
    ensures
        has_removal(launchd::install_plan(home, exe, search_path, name, args, hour, minute, present), file) <==> name
            == "default"@ && present.contains(file) && file == launchd::plist_of(home, launchd::legacy_label()),
{
    let plist = launchd::plist_of(home, launchd::label_for(name));
    let legacy = launchd::plist_of(home, launchd::legacy_label());
    let a = seq![
        StepModel::CreateDir { path: launchd::agents_dir(home) },
        StepModel::CreateDir { path: platform::log_dir_of(home) },
    ];
    let b = if name == "default"@ {
        launchd::legacy_removal(home, present)
    } else {
        Seq::empty()
    };
    let c = if present.contains(plist) {
        seq![plan::attempt(launchd::launchctl("unload"@, plist))]
    } else {
        Seq::empty()
    };
    let content = launchd::schedule_plist(home, exe, search_path, name, args, hour, minute);
    let d = launchd::activation(plist, content, exe, name, hour, minute);
    assert(launchd::install_plan(home, exe, search_path, name, args, hour, minute, present) =~= a + b + c + d);
    lemma_removals_add_up(a + b + c, d, file);
    lemma_removals_add_up(a + b, c, file);
    lemma_removals_add_up(a, b, file);
    if name == "default"@ && present.contains(legacy) {
        assert(removes(b[1], legacy));
    }
}

proof fn lemma_systemd_replacement(
    home: Seq<char>,
    exe: Seq<char>,
    name: Seq<char>,
    args: Seq<Seq<char>>,
    hour: u8,
    minute: u8,
    present: Seq<Seq<char>>,
    file: Seq<char>,
)
    ensures
        has_removal(systemd::install_plan(home, exe, name, args, hour, minute, present), file) <==> name == "default"@
            && present.contains(file) && (file == systemd::timer_of(home, systemd::legacy_stem()) || file
            == systemd::service_of(home, systemd::legacy_stem())),
{
    let stem = systemd::stem_for(name);
    let svc = systemd::service_of(home, stem);
    let tmr = systemd::timer_of(home, stem);
    let a = systemd::directories(home);
    let b = systemd::only_if(name == "default"@, systemd::legacy_removal(home, present));
    let c = systemd::halt(stem);
    let d = systemd::activation(
        svc,
        tmr,
        text::unlines(
            systemd::service_lines(systemd::service_description(name), systemd::quoted_command(exe, args)),
        ),
        text::unlines(systemd::timer_lines(systemd::timer_description(name), hour, minute)),
        stem,
    );
    let e = systemd::installed_lines(svc, tmr, exe, name, hour, minute);
    lemma_removals_add_up(a + b + c + d, e, file);
    lemma_removals_add_up(a + b + c, d, file);
    lemma_removals_add_up(a + b, c, file);
    lemma_removals_add_up(a, b, file);
    lemma_systemd_older_removal(home, present, file);
}

/// A schedule stops before its files go: the job is unloaded, or the timer stopped and disabled,
/// and after that systemd reads its units again.
pub proof fn lemma_schedule_stops_before_its_files_go(
    host: HostModel,
    home: Seq<char>,
    name: Seq<char>,
    present: Seq<Seq<char>>,
)
    requires
        host.home == Some(home),
        schedules::is_home(home),
        schedules::good_name(name),
        name != "daily"@,
    ensures
        host.platform is Launchd && present.contains(schedules::plist_file(home, name)) ==> (
        platform_scheduler::removal(host, name, present) matches Ok(steps) && {
            &&& steps.len() >= 2
            &&& runs(steps[0], "launchctl"@, seq!["unload"@, schedules::plist_file(home, name)])
            &&& removes(steps[1], schedules::plist_file(home, name))
        }),
        host.platform is Systemd ==> (platform_scheduler::removal(host, name, present) matches Ok(steps) && {
            let unit = "worktree-gc-"@ + name + ".timer"@;
            &&& steps.len() >= 4
            &&& runs(steps[0], "systemctl"@, seq!["--user"@, "stop"@, unit])
            &&& runs(steps[1], "systemctl"@, seq!["--user"@, "disable"@, unit])
            &&& exists|i: int|
                {
                    &&& 2 <= i < steps.len()
                    &&& runs(#[trigger] steps[i], "systemctl"@, seq!["--user"@, "daemon-reload"@])
                    &&& forall|j: int| i < j < steps.len() ==> #[trigger] steps[j] is Show
                }
        }),
{
    schedules::lemma_good_names_are_taken("schedule"@, name);
    schedules::lemma_files_lie_in_the_home_directory(home, name);
    if host.platform is Systemd {
        let steps = systemd::uninstall_plan(home, name, present);
        let stem = systemd::stem_for(name);
        let svc = systemd::service_of(home, stem);
        let tmr = systemd::timer_of(home, stem);
        let gone = present.contains(tmr) || present.contains(svc) || name == "default"@ && systemd::has_legacy(
            home,
            present,
        );
        let i = if gone {
            steps.len() - 3
        } else {
            steps.len() - 2
        };
        assert(steps[i] == plan::attempt(systemd::reload()));
        assert(runs(steps[i], "systemctl"@, seq!["--user"@, "daemon-reload"@]));
    }
}

/// Where no schedule is there to remove, nothing is removed and the words say so; where one is, they
/// say that it is gone.
pub proof fn lemma_removal_says_what_it_did(
    host: HostModel,
    home: Seq<char>,
    name: Seq<char>,
    present: Seq<Seq<char>>,
)
    requires
        host.home == Some(home),
        schedules::is_home(home),
        schedules::good_name(name),
        name != "daily"@,
        name != "default"@,
    ensures
        host.platform is Launchd ==> (platform_scheduler::removal(host, name, present) matches Ok(steps) && {
            let file = schedules::plist_file(home, name);
            &&& steps.len() > 0
            &&& !present.contains(file) ==> steps.len() == 1 && steps[0] == StepModel::Show(
                crate::ui::two(
                    ""@,
                    crate::ui::span("No schedule installed"@, crate::ui::Style::Warning),
                    crate::ui::span("(plist not found: "@ + file + ")"@, crate::ui::Style::Muted),
                ),
            )
            &&& present.contains(file) ==> steps.len() == 5 && steps[2] == StepModel::Show(
                crate::ui::one(""@, crate::ui::span("✓ Schedule removed"@, crate::ui::Style::Success)),
            )
        }),
        host.platform is Systemd ==> (platform_scheduler::removal(host, name, present) matches Ok(steps) && {
            let there = present.contains(schedules::timer_file(home, name)) || present.contains(
                schedules::service_file(home, name),
            );
            &&& steps.len() > 2
            &&& !there ==> steps.last() == StepModel::Show(
                crate::ui::one(
                    ""@,
                    crate::ui::span("No schedule installed (unit files not found)"@, crate::ui::Style::Warning),
                ),
            )
            &&& there ==> steps[steps.len() - 2] == StepModel::Show(
                crate::ui::one(""@, crate::ui::span("✓ Schedule removed"@, crate::ui::Style::Success)),
            )
        }),
{
    schedules::lemma_good_names_are_taken("schedule"@, name);
    schedules::lemma_files_lie_in_the_home_directory(home, name);
}

/// What comes of a command that a plan ran: success goes on, a failure stops the plan with the words
/// and what the command said, or warns of it, or is passed over, as the plan has it; and so it is
/// with a command that could not be started.
pub proof fn lemma_plan_goes_on_after_success(
    outcome: crate::command::OutcomeModel,
    not_started: Option<Seq<char>>,
    on_failure: FailureModel,
)
    ensures
        ({
            let r = plan::consequence(outcome, not_started, on_failure);
            match outcome {
                crate::command::OutcomeModel::NotStarted { cause } => {
                    &&& not_started is None ==> r is Continue
                    &&& not_started matches Some(words) ==> (r matches plan::VerdictModel::Stop(e) && e.text == words
                        && e.cause == Some(cause))
                },
                crate::command::OutcomeModel::Exited { success, stderr, .. } => {
                    &&& success ==> r is Continue
                    &&& !success && on_failure is Ignore ==> r is Continue
                    &&& !success && (on_failure matches FailureModel::Warn(_)) ==> r == plan::VerdictModel::Warn(
                        on_failure->Warn_0 + ": "@ + text::trim(stderr),
                    )
                    &&& !success && (on_failure matches FailureModel::Stop(_)) ==> (r matches plan::VerdictModel::Stop(e)
                        && e.text == on_failure->Stop_0 + ": "@ + stderr && e.cause is None)
                },
            }
        }),
{
}

/// What a command that must succeed gives: what it wrote where it did, and otherwise an error with
/// its cause or with what it said.
pub proof fn lemma_required_command_gives_its_output(
    outcome: crate::command::OutcomeModel,
    not_started: Seq<char>,
    name: Seq<char>,
)
    ensures
        ({
            let r = outcome.required(not_started, name);
            match outcome {
                crate::command::OutcomeModel::NotStarted { cause } => r matches Err(e) && e.text == not_started
                    && e.cause == Some(cause) && !outcome.succeeded(),
                crate::command::OutcomeModel::Exited { success, stdout, stderr } => {
                    &&& success ==> r == Ok::<_, ErrorModel>(stdout) && outcome.succeeded()
                    &&& !success ==> (r matches Err(e) && e.text == name + " failed: "@ + stderr && e.cause is None)
                        && !outcome.succeeded()
                },
            }
        }),
{
}

/// The daily schedule runs over its directory: under systemd its service and its timer are written
/// and the timer is started, with the time that was asked for.
pub proof fn lemma_daily_timer_is_written_and_started(
    host: HostModel,
    home: Seq<char>,
    exe: Seq<char>,
    dir: Seq<char>,
    hour: u8,
    minute: u8,
    present: Seq<Seq<char>>,
)
    requires
        host.platform is Systemd,
        is_ready(host, home, exe),
        hour < 24,
        minute < 60,
    ensures
        scheduler::installation(host, dir, hour, minute, present) matches Ok(steps) && {
            let log = home + "/.local/share/worktree-gc/gc.jsonl"@;
            &&& steps.len() == 15
            &&& makes(steps[0], home + "/.config/systemd/user"@)
            &&& makes(steps[1], home + "/.local/share/worktree-gc"@)
            &&& runs(steps[2], "systemctl"@, seq!["--user"@, "stop"@, "worktree-gc.timer"@])
            &&& runs(steps[3], "systemctl"@, seq!["--user"@, "disable"@, "worktree-gc.timer"@])
            &&& writes(
                steps[4],
                home + "/.config/systemd/user/worktree-gc.service"@,
                text::unlines(
                    systemd::service_lines(
                        "Clean up git worktrees whose PRs have been merged"@,
                        exe + " run --dir "@ + dir + " --log-file "@ + log,
                    ),
                ),
            )
            &&& (steps[5] matches StepModel::WriteFile { path, content, .. } && path == home
                + "/.config/systemd/user/worktree-gc.timer"@ && (systemd::calendar_in(text::lines(content)) matches Some(
                when,
            ) && schedules::calendar_tells(when, hour, minute)))
            &&& insists_on(steps[6], "systemctl"@, seq!["--user"@, "daemon-reload"@])
            &&& insists_on(steps[7], "systemctl"@, seq!["--user"@, "enable"@, "--now"@, "worktree-gc.timer"@])
        },
{
    schedules::lemma_files_lie_in_the_home_directory(home, "default"@.subrange(0, 0));
    lemma_general_log(home);
    reveal_strlit("Daily cleanup of merged git worktrees");
    reveal_strlit("worktree-gc");
    reveal_strlit(".timer");
    reveal_strlit("worktree-gc.timer");
    assert("worktree-gc"@ + ".timer"@ =~= "worktree-gc.timer"@);
    let words = "Daily cleanup of merged git worktrees"@;
    systemd::lemma_timer_tells_its_time(words, hour, minute);
    schedules::lemma_calendar(hour, minute);
}

proof fn lemma_general_log(home: Seq<char>)
    requires
        schedules::is_home(home),
    ensures
        scheduler::log_file_of(home) == home + "/.local/share/worktree-gc/gc.jsonl"@,
        crate::paths::joined(platform::log_dir_of(home), "launchd-stdout.log"@) == home
            + "/.local/share/worktree-gc/launchd-stdout.log"@,
        crate::paths::joined(platform::log_dir_of(home), "launchd-stderr.log"@) == home
            + "/.local/share/worktree-gc/launchd-stderr.log"@,
{
    schedules::lemma_files_lie_in_the_home_directory(home, "default"@.subrange(0, 0));
    reveal_strlit("/");
    reveal_strlit("gc.jsonl");
    reveal_strlit("launchd-stdout.log");
    reveal_strlit("launchd-stderr.log");
    reveal_strlit("/.local/share/worktree-gc");
    reveal_strlit("/.local/share/worktree-gc/gc.jsonl");
    reveal_strlit("/.local/share/worktree-gc/launchd-stdout.log");
    reveal_strlit("/.local/share/worktree-gc/launchd-stderr.log");
    let dir = platform::log_dir_of(home);
    assert(dir.last() == 'c');
    assert("gc.jsonl"@[0] == 'g');
    assert("launchd-stdout.log"@[0] == 'l');
    assert("launchd-stderr.log"@[0] == 'l');
    assert(scheduler::log_file_of(home) =~= home + "/.local/share/worktree-gc/gc.jsonl"@);
    assert(crate::paths::joined(dir, "launchd-stdout.log"@) =~= home
        + "/.local/share/worktree-gc/launchd-stdout.log"@);
    assert(crate::paths::joined(dir, "launchd-stderr.log"@) =~= home
        + "/.local/share/worktree-gc/launchd-stderr.log"@);
}

/// The daily schedule runs over its directory: under launchd its file is written and loaded.
pub proof fn lemma_daily_job_is_written_and_loaded(
    host: HostModel,
    home: Seq<char>,
    exe: Seq<char>,
    dir: Seq<char>,
    hour: u8,
    minute: u8,
    present: Seq<Seq<char>>,
)
    requires
        host.platform is Launchd,
        is_ready(host, home, exe),
    ensures
        scheduler::installation(host, dir, hour, minute, present) matches Ok(steps) && {
            let file = schedules::plist_file(home, "daily"@);
            let logs = home + "/.local/share/worktree-gc"@;
            let n = steps.len();
            &&& n == if present.contains(file) { 11 } else { 10nat }
            &&& makes(steps[0], home + "/Library/LaunchAgents"@)
            &&& makes(steps[1], logs)
            &&& present.contains(file) ==> runs(steps[2], "launchctl"@, seq!["unload"@, file])
            &&& writes(
                steps[n - 8],
                file,
                text::unlines(
                    plist::plist_lines(
                        "com.worktree-gc.daily"@,
                        exe,
                        seq![
                            "run"@,
                            "--dir"@,
                            dir,
                            "--log-file"@,
                            home + "/.local/share/worktree-gc/gc.jsonl"@,
                        ],
                        host.search_path,
                        home + "/.local/share/worktree-gc/launchd-stdout.log"@,
                        home + "/.local/share/worktree-gc/launchd-stderr.log"@,
                        hour,
                        minute,
                    ),
                ),
            )
            &&& insists_on(steps[n - 7], "launchctl"@, seq!["load"@, file])
        },
{
    schedules::lemma_files_lie_in_the_home_directory(home, "default"@.subrange(0, 0));
    lemma_general_log(home);
}

/// The daily schedule counts as installed where its file is there, is removed where files of it are
/// there, and can be installed where the machine can have one and tells its program and home
/// directory.
pub proof fn lemma_daily_schedule_comes_and_goes(
    host: HostModel,
    home: Seq<char>,
    dir: Seq<char>,
    hour: u8,
    minute: u8,
    present: Seq<Seq<char>>,
    file: Seq<char>,
)
    requires
        host.home == Some(home),
        schedules::is_home(home),
    ensures
        scheduler::installation(host, dir, hour, minute, present) is Ok <==> host.platform !is Unsupported && host.exe is Ok,
        host.platform is Launchd ==> {
            let plist = schedules::plist_file(home, "daily"@);
            &&& scheduler::installed(host, present) <==> present.contains(plist)
            &&& scheduler::removal(host, present) matches Ok(steps) && (has_removal(steps, file) <==> present.contains(
                file,
            ) && file == plist)
        },
        host.platform is Systemd ==> {
            let timer = home + "/.config/systemd/user/worktree-gc.timer"@;
            let service = home + "/.config/systemd/user/worktree-gc.service"@;
            &&& scheduler::installed(host, present) <==> present.contains(timer)
            &&& scheduler::removal(host, present) matches Ok(steps) && (has_removal(steps, file) <==> present.contains(
                file,
            ) && (file == timer || file == service))
        },
        host.platform is Unsupported ==> !scheduler::installed(host, present) && scheduler::removal(host, present) is Err,
{
    schedules::lemma_files_lie_in_the_home_directory(home, "default"@.subrange(0, 0));
    if host.platform is Launchd {
        let plist = schedules::plist_file(home, "daily"@);
        let steps = scheduler::launchd_removal(home, present);
        if present.contains(plist) {
            assert(removes(steps[1], plist));
        } else {
            assert(steps.len() == 1);
            assert(steps[0] is Show);
        }
    }
    if host.platform is Systemd {
        lemma_systemd_older_removal(home, present, file);
        if systemd::has_legacy(home, present) {
            let x = systemd::legacy_removal(home, present);
            let done = scheduler::said("✓ Schedule removed"@);
            assert(x.push(done) =~= x + seq![done]);
            lemma_removals_add_up(x, seq![done], file);
        }
    }
}

/// The older schedule stops before its files go: its job is unloaded, or its timer stopped and
/// disabled, and systemd reads its units again after that; where it is not there nothing happens.
pub proof fn lemma_older_schedule_stops_before_its_files_go(home: Seq<char>, present: Seq<Seq<char>>)
    requires
        schedules::is_home(home),
    ensures
        ({
            let file = schedules::plist_file(home, "daily"@);
            let steps = launchd::legacy_removal(home, present);
            &&& !present.contains(file) ==> steps.len() == 0
            &&& present.contains(file) ==> {
                &&& steps.len() == 2
                &&& runs(steps[0], "launchctl"@, seq!["unload"@, file])
                &&& steps[1] == (StepModel::RemoveFile { path: file, failure: Some("Failed to remove "@ + file) })
            }
        }),
        ({
            let timer = home + "/.config/systemd/user/worktree-gc.timer"@;
            let service = home + "/.config/systemd/user/worktree-gc.service"@;
            let steps = systemd::legacy_removal(home, present);
            let there = present.contains(timer) || present.contains(service);
            &&& !there ==> steps.len() == 0
            &&& there ==> {
                &&& steps.len() >= 4
                &&& runs(steps[0], "systemctl"@, seq!["--user"@, "stop"@, "worktree-gc.timer"@])
                &&& runs(steps[1], "systemctl"@, seq!["--user"@, "disable"@, "worktree-gc.timer"@])
                &&& runs(steps.last(), "systemctl"@, seq!["--user"@, "daemon-reload"@])
                &&& present.contains(timer) ==> removes(steps[2], timer)
                &&& present.contains(service) ==> removes(steps[steps.len() - 2], service)
            }
        }),
{
    schedules::lemma_files_lie_in_the_home_directory(home, "default"@.subrange(0, 0));
    reveal_strlit("worktree-gc");
    reveal_strlit(".timer");
    reveal_strlit("worktree-gc.timer");
    assert("worktree-gc"@ + ".timer"@ =~= "worktree-gc.timer"@);
}

/// What is printed at the end of an installation is the name, the files, the program and the time.
pub proof fn lemma_installation_tells_what_it_did(
    host: HostModel,
    home: Seq<char>,
    exe: Seq<char>,
    name: Seq<char>,
    workspace: Seq<char>,
    hour: u8,
    minute: u8,
    present: Seq<Seq<char>>,
)
    requires
        host.platform !is Unsupported,
        is_ready(host, home, exe),
        schedules::good_name(name),
        name != "daily"@,
        schedules::good_name(workspace),
    ensures
        platform_scheduler::installation(host, name, workspace, hour, minute, present) matches Ok(steps) && {
            let n = steps.len();
            let line = |label: Seq<char>, value: crate::ui::SpanModel|
                StepModel::Show(crate::ui::two("  "@, crate::ui::label_of(label), value));
            let path = |value: Seq<char>| crate::ui::span(value, crate::ui::Style::Path);
            let time = platform::clock(hour as nat, minute as nat) + " daily"@;
            &&& n >= 9
            &&& steps[n - 1] == line("Time"@, crate::ui::span(time, crate::ui::Style::Value))
            &&& steps[n - 2] == line("Binary"@, path(exe))
            &&& host.platform is Launchd ==> {
                &&& steps[n - 3] == line("Plist"@, path(schedules::plist_file(home, name)))
                &&& steps[n - 4] == line("Name"@, crate::ui::span(name, crate::ui::Style::Name))
                &&& steps[n - 5] == StepModel::Show(
                    crate::ui::one(
                        ""@,
                        crate::ui::span("✓ Schedule installed (launchd)"@, crate::ui::Style::Success),
                    ),
                )
            }
            &&& host.platform is Systemd ==> {
                &&& steps[n - 3] == line("Timer"@, path(schedules::timer_file(home, name)))
                &&& steps[n - 4] == line("Service"@, path(schedules::service_file(home, name)))
                &&& steps[n - 5] == line("Name"@, crate::ui::span(name, crate::ui::Style::Name))
                &&& steps[n - 6] == StepModel::Show(
                    crate::ui::one(
                        ""@,
                        crate::ui::span("✓ Schedule installed (systemd)"@, crate::ui::Style::Success),
                    ),
                )
            }
        },
{
    schedules::lemma_good_names_are_taken("workspace"@, workspace);
    schedules::lemma_good_names_are_taken("schedule"@, name);
    schedules::lemma_files_lie_in_the_home_directory(home, name);
}

/// What is printed at the end of the installation of the daily schedule is the program, the
/// directory, the time and the log.
pub proof fn lemma_daily_installation_tells_what_it_did(
    host: HostModel,
    home: Seq<char>,
    exe: Seq<char>,
    dir: Seq<char>,
    hour: u8,
    minute: u8,
    present: Seq<Seq<char>>,
)
    requires
        host.platform !is Unsupported,
        is_ready(host, home, exe),
    ensures
        scheduler::installation(host, dir, hour, minute, present) matches Ok(steps) && {
            let n = steps.len();
            let line = |words: Seq<char>| StepModel::Show(crate::ui::text_line(words));
            let time = platform::clock(hour as nat, minute as nat) + " daily"@;
            &&& n >= 10
            &&& steps[n - 4] == line("  Binary:   "@ + exe)
            &&& steps[n - 3] == line("  Scan dir: "@ + dir)
            &&& steps[n - 2] == line("  Time:     "@ + time)
            &&& steps[n - 1] == line("  Log:      "@ + (home + "/.local/share/worktree-gc/gc.jsonl"@))
            &&& host.platform is Launchd ==> steps[n - 5] == line(
                "  Plist:    "@ + schedules::plist_file(home, "daily"@),
            ) && steps[n - 6] == line("✓ Schedule installed (launchd)"@)
            &&& host.platform is Systemd ==> steps[n - 5] == line(
                "  Timer:    "@ + (home + "/.config/systemd/user/worktree-gc.timer"@),
            ) && steps[n - 6] == line("  Service:  "@ + (home + "/.config/systemd/user/worktree-gc.service"@)) && steps[n - 7]
                == line("✓ Schedule installed (systemd)"@)
        },
{
    schedules::lemma_files_lie_in_the_home_directory(home, "default"@.subrange(0, 0));
    lemma_general_log(home);
}

/// The files that a plan asks after are those of the schedule and of the older one.
pub proof fn lemma_files_of_a_schedule(host: HostModel, home: Seq<char>, name: Seq<char>)
    requires
        host.home == Some(home),
        schedules::is_home(home),
        schedules::good_name(name),
    ensures
        host.platform is Launchd ==> platform_scheduler::files_of(host, name) == seq![
            schedules::plist_file(home, name),
            schedules::plist_file(home, "daily"@),
        ],
        host.platform is Systemd ==> platform_scheduler::files_of(host, name) == seq![
            schedules::service_file(home, name),
            schedules::timer_file(home, name),
            home + "/.config/systemd/user/worktree-gc.service"@,
            home + "/.config/systemd/user/worktree-gc.timer"@,
        ],
{
    schedules::lemma_files_lie_in_the_home_directory(home, name);
}

/// The step runs the command and stops the plan with these words where it cannot be started or fails.
pub open spec fn stops_with(
    step: StepModel,
    program: Seq<char>,
    args: Seq<Seq<char>>,
    lost: Seq<char>,
    failed: Seq<char>,
) -> bool {
    step == (StepModel::Run {
        command: CommandModel { program, args },
        not_started: Some(lost),
        on_failure: FailureModel::Stop(failed),
    })
}

/// What stops a plan says what could not be done: the job could not be loaded, the units not read
/// again, the timer not enabled, the file not removed.
pub proof fn lemma_stopped_plans_say_why(
    host: HostModel,
    home: Seq<char>,
    exe: Seq<char>,
    name: Seq<char>,
    workspace: Seq<char>,
    hour: u8,
    minute: u8,
    present: Seq<Seq<char>>,
)
    requires
        host.platform !is Unsupported,
        is_ready(host, home, exe),
        schedules::good_name(name),
        name != "daily"@,
        schedules::good_name(workspace),
    ensures
        platform_scheduler::installation(host, name, workspace, hour, minute, present) matches Ok(steps) && {
            let n = steps.len();
            let file = schedules::plist_file(home, name);
            let unit = "worktree-gc-"@ + name + ".timer"@;
            &&& host.platform is Launchd ==> n >= 9 && stops_with(
                steps[n - 6],
                "launchctl"@,
                seq!["load"@, file],
                "Failed to run launchctl load"@,
                "launchctl load failed"@,
            )
            &&& host.platform is Systemd ==> n >= 14 && stops_with(
                steps[n - 8],
                "systemctl"@,
                seq!["--user"@, "daemon-reload"@],
                "Failed to run systemctl daemon-reload"@,
                "systemctl daemon-reload failed"@,
            ) && stops_with(
                steps[n - 7],
                "systemctl"@,
                seq!["--user"@, "enable"@, "--now"@, unit],
                "Failed to enable timer"@,
                "systemctl enable failed"@,
            )
        },
        host.platform is Launchd && present.contains(schedules::plist_file(home, name)) ==> (
        platform_scheduler::removal(host, name, present) matches Ok(steps) && {
            let file = schedules::plist_file(home, name);
            &&& steps.len() >= 5
            &&& steps[0] == (StepModel::Run {
                command: CommandModel { program: "launchctl"@, args: seq!["unload"@, file] },
                not_started: Some("Failed to run launchctl unload"@),
                on_failure: FailureModel::Warn("launchctl unload warning"@),
            })
            &&& steps[1] == (StepModel::RemoveFile { path: file, failure: Some("Failed to remove "@ + file) })
        }),
        host.platform is Launchd && present.contains(schedules::plist_file(home, "daily"@)) ==> (scheduler::removal(
            host,
            present,
        ) matches Ok(steps) && {
            let file = schedules::plist_file(home, "daily"@);
            &&& steps.len() == 4
            &&& steps[0] == (StepModel::Run {
                command: CommandModel { program: "launchctl"@, args: seq!["unload"@, file] },
                not_started: Some("Failed to run launchctl unload"@),
                on_failure: FailureModel::Warn("launchctl unload warning"@),
            })
            &&& steps[1] == (StepModel::RemoveFile { path: file, failure: Some("Failed to remove "@ + file) })
        }),
{
    schedules::lemma_good_names_are_taken("workspace"@, workspace);
    schedules::lemma_good_names_are_taken("schedule"@, name);
    schedules::lemma_files_lie_in_the_home_directory(home, name);
    if host.platform is Systemd {
        let steps = lemma_systemd_steps(host, home, exe, name, workspace, hour, minute, present);
    }
}

} // verus!
