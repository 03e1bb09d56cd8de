use worktree_gc::cli::Cli;
use worktree_gc::command::{CommandLine, Outcome};
use worktree_gc::config::{RuntimeConfigFile, ScheduleConfig, WorkspaceConfig};
use worktree_gc::launchd::listing_command;
use worktree_gc::plan::{judge, OnFailure, Step, Verdict};
use worktree_gc::platform::{FileState, Host, Platform, SchedulerWatch, UnitWatch};
use worktree_gc::platform_scheduler::{
    install_workspace, print_config, schedule_files, uninstall, workspace_run_args,
};
use worktree_gc::plist::{extract_plist_integer, extract_plist_time, render_launchd_plist};
use worktree_gc::schedule::{
    all_schedule_names, check_install, check_new_schedule, check_time_input, configured_names,
    default_new_schedule_name, ensure_valid_daily_time, forget_all_schedules, forget_schedule,
    install_from_parts, interactive_wizard, parse_daily_time, print_registered, print_schedule_summary,
    removal_prompt, schedule_menu, schedule_workspace, wizard_choice, WizardChoice,
};
use worktree_gc::schedule_names::{printable_schedule_names, validate_schedule_name};
use worktree_gc::systemd::{
    active_command, list_timers_command, extract_systemd_timer_schedule, quote_systemd_arg, render_systemd_service, render_systemd_timer,
};
use worktree_gc::ui::Line;

fn text(line: &Line) -> String {
    line.spans.iter().map(|span| span.text.as_str()).collect()
}

fn texts(lines: &[Line]) -> Vec<String> {
    lines.iter().map(text).collect()
}

fn words(command: &CommandLine) -> String {
    let mut all = vec![command.program.clone()];
    all.extend(command.args.iter().cloned());
    all.join(" ")
}

/// The steps in words: `show`, `mkdir`, `write`, `rm`, and `run` with `?` for one that may fail,
/// `~` for one that warns and `!` for one that must succeed.
fn outline(steps: &[Step]) -> Vec<String> {
    steps
        .iter()
        .map(|step| match step {
            Step::Show(line) => format!("show {}", text(line)),
            Step::CreateDir { path } => format!("mkdir {path}"),
            Step::WriteFile { path, failure, .. } => {
                assert_eq!(failure, &format!("Failed to write {path}"));
                format!("write {path}")
            }
            Step::RemoveFile { path, failure } => {
                if let Some(failure) = failure {
                    assert_eq!(failure, &format!("Failed to remove {path}"));
                }
                format!("rm {path}")
            }
            Step::Run { command, on_failure, .. } => {
                let mark = match on_failure {
                    OnFailure::Ignore => "?",
                    OnFailure::Warn(_) => "~",
                    OnFailure::Stop(_) => "!",
                };
                format!("run{mark} {}", words(command))
            }
        })
        .collect()
}

fn host(platform: Platform) -> Host {
    Host {
        platform,
        home: Some("/home/u".to_string()),
        exe: Ok("/bin/worktree-gc".to_string()),
        search_path: "/usr/bin:/bin".to_string(),
    }
}

fn paths(all: &[&str]) -> Vec<String> {
    all.iter().map(|path| path.to_string()).collect()
}

fn done(stdout: &str) -> Outcome {
    Outcome::Exited { success: true, stdout: stdout.to_string(), stderr: String::new() }
}

fn not_started() -> Outcome {
    Outcome::NotStarted { cause: "no such file".to_string() }
}

fn cli(workspace: Option<&str>) -> Cli {
    Cli {
        command: None,
        dir: "/repos".to_string(),
        dry_run: false,
        verbose: false,
        log_file: "/gc.jsonl".to_string(),
        workspace: workspace.map(|name| name.to_string()),
    }
}

fn schedule(name: &str, hour: u8, minute: u8) -> ScheduleConfig {
    ScheduleConfig { name: name.to_string(), workspace: "team".to_string(), hour, minute }
}

#[test]
fn test_validate_schedule_name() {
    assert!(validate_schedule_name("default").is_ok());
    assert!(validate_schedule_name("team-a_1").is_ok());
    assert!(validate_schedule_name("Daily").is_err());
    assert!(validate_schedule_name("daily").is_err());
    assert!(validate_schedule_name("../daily").is_err());
}

#[test]
fn the_reserved_name_has_its_words() {
    assert_eq!(
        validate_schedule_name("daily").unwrap_err().message(),
        "schedule name 'daily' is reserved for legacy migration"
    );
}

#[test]
fn test_printable_schedule_names_defaults_when_empty() {
    assert_eq!(printable_schedule_names(&Vec::new()), vec!["default".to_string()]);
}

#[test]
fn test_printable_schedule_names_sorts_and_deduplicates() {
    assert_eq!(
        printable_schedule_names(&vec![
            "nightly".to_string(),
            "default".to_string(),
            "nightly".to_string(),
        ]),
        vec!["default".to_string(), "nightly".to_string()]
    );
}

#[test]
fn test_render_launchd_plist_uses_workspace_argument() {
    let args = workspace_run_args("personal");
    let content = render_launchd_plist(
        "com.worktree-gc.personal",
        "/usr/local/bin/worktree-gc",
        &args,
        "/usr/bin:/bin",
        "/tmp/stdout.log",
        "/tmp/stderr.log",
        9,
        30,
    );

    assert!(content.contains("<string>com.worktree-gc.personal</string>"));
    assert!(content.contains("<string>--workspace</string>"));
    assert!(content.contains("<string>personal</string>"));
    assert!(content.contains("<integer>9</integer>"));
    assert!(content.contains("<integer>30</integer>"));
}

#[test]
fn a_plist_is_written_letter_by_letter() {
    let content = render_launchd_plist(
        "com.worktree-gc.x",
        "/bin/w",
        &workspace_run_args("p"),
        "/usr/bin",
        "/o",
        "/e",
        9,
        5,
    );
    let expected = r#"<?xml version="1.0" encoding="UTF-8"?>
<!DOCTYPE plist PUBLIC "-//Apple//DTD PLIST 1.0//EN" "http://www.apple.com/DTDs/PropertyList-1.0.dtd">
<plist version="1.0">
<dict>
    <key>Label</key>
    <string>com.worktree-gc.x</string>

    <key>ProgramArguments</key>
    <array>
        <string>/bin/w</string>
        <string>run</string>
        <string>--workspace</string>
        <string>p</string>
    </array>

    <key>EnvironmentVariables</key>
    <dict>
        <key>PATH</key>
        <string>/usr/bin</string>
    </dict>

    <key>StartCalendarInterval</key>
    <dict>
        <key>Hour</key>
        <integer>9</integer>
        <key>Minute</key>
        <integer>5</integer>
    </dict>

    <key>StandardOutPath</key>
    <string>/o</string>
    <key>StandardErrorPath</key>
    <string>/e</string>
</dict>
</plist>
"#;
    assert_eq!(content, expected);
    assert_eq!(extract_plist_integer(&content, "Hour"), Some(9));
    assert_eq!(extract_plist_integer(&content, "Minute"), Some(5));
    assert_eq!(extract_plist_integer(&content, "Second"), None);
    assert_eq!(extract_plist_integer(&content, "Label"), None);
    assert_eq!(extract_plist_integer(&content, "StartCalendarInterval"), None);
    assert_eq!(extract_plist_time(&content).as_deref(), Some("09:05 daily"));
}

#[test]
fn plist_integers_are_found_behind_their_key() {
    assert_eq!(extract_plist_integer("<key>A</key>\n<integer>4294967295</integer>", "A"), Some(4294967295));
    assert_eq!(extract_plist_integer("<key>A</key>\n<integer>4294967296</integer>", "A"), None);
    assert_eq!(extract_plist_integer("<key>A</key>\n<integer>x</integer>\n<key>A</key>\n<integer>1</integer>", "A"), None);
    assert_eq!(extract_plist_integer("<key>A</key>\n<string/>\n<key>A</key>\n <integer>1</integer> ", "A"), Some(1));
    assert_eq!(extract_plist_integer("<key>A</key>\n<key>A</key>\n<integer>1</integer>", "A"), None);
    assert_eq!(extract_plist_integer("<key>A</key>", "A"), None);
    assert_eq!(extract_plist_time("<key>Hour</key>\n<integer>1</integer>"), None);
}

#[test]
fn test_render_systemd_service_uses_workspace_argument() {
    let args = workspace_run_args("personal");
    let content = render_systemd_service("personal", "/usr/local/bin/worktree-gc", &args);

    assert!(content.contains("Description=Clean up merged git worktrees (personal)"));
    assert!(content.contains("ExecStart=/usr/local/bin/worktree-gc run --workspace personal"));
}

#[test]
fn units_are_written_letter_by_letter() {
    assert_eq!(
        render_systemd_service("p", "/my bin/w", &workspace_run_args("p")),
        "[Unit]\nDescription=Clean up merged git worktrees (p)\n\n[Service]\nType=oneshot\nExecStart='/my bin/w' run --workspace p\n\n[Install]\nWantedBy=default.target\n"
    );
    let timer = render_systemd_timer("p", 9, 5);
    assert_eq!(
        timer,
        "[Unit]\nDescription=Daily cleanup of merged git worktrees (p)\n\n[Timer]\nOnCalendar=*-*-* 09:05:00\nPersistent=true\n\n[Install]\nWantedBy=timers.target\n"
    );
    assert_eq!(extract_systemd_timer_schedule(&timer).as_deref(), Some("*-*-* 09:05:00"));
}

#[test]
fn arguments_are_quoted_where_they_must_be() {
    assert_eq!(quote_systemd_arg("a-b_c.d/e:f=G9"), "a-b_c.d/e:f=G9");
    assert_eq!(quote_systemd_arg(""), "");
    assert_eq!(quote_systemd_arg("a b"), "'a b'");
    assert_eq!(quote_systemd_arg("it's \\ here"), "'it\\'s \\\\ here'");
    assert_eq!(quote_systemd_arg("%"), "'%'");
}

#[test]
fn mod_test_extract_systemd_timer_schedule() {
    let content = "\
[Timer]
OnCalendar=*-*-* 09:00:00
        Persistent=true
";

    assert_eq!(
        extract_systemd_timer_schedule(content).as_deref(),
        Some("*-*-* 09:00:00")
    );
}

#[test]
fn the_first_calendar_line_counts() {
    assert_eq!(
        extract_systemd_timer_schedule("  OnCalendar= a \nOnCalendar=b").as_deref(),
        Some(" a")
    );
    assert_eq!(extract_systemd_timer_schedule("XOnCalendar=a"), None);
}

#[test]
fn schedule_test_parse_daily_time() {
    assert_eq!(parse_daily_time("09:00"), Some((9, 0)));
    assert_eq!(parse_daily_time("18:30"), Some((18, 30)));
    assert_eq!(parse_daily_time("24:00"), None);
    assert_eq!(parse_daily_time("09:60"), None);
    assert_eq!(parse_daily_time("9:00"), None);
}

#[test]
fn only_two_digits_each_are_a_time() {
    assert_eq!(parse_daily_time("+9:00"), None);
    assert_eq!(parse_daily_time("09:+5"), None);
    assert_eq!(parse_daily_time(" 9:00"), None);
    assert_eq!(parse_daily_time("00:00"), Some((0, 0)));
    assert_eq!(parse_daily_time("23:59"), Some((23, 59)));
    assert_eq!(parse_daily_time("-1:00"), None);
    assert_eq!(parse_daily_time("12:34:56"), None);
    assert_eq!(parse_daily_time("1234"), None);
    assert_eq!(parse_daily_time("\u{e9}:00"), None);
    assert_eq!(parse_daily_time(""), None);
    assert!(check_time_input("07:15").is_ok());
    assert_eq!(
        check_time_input("7:15").unwrap_err().message(),
        "Must be in HH:MM format, for example 09:00 or 18:30"
    );
    assert!(ensure_valid_daily_time(23, 59).is_ok());
    assert_eq!(ensure_valid_daily_time(24, 60).unwrap_err().message(), "Hour must be between 0 and 23");
    assert_eq!(ensure_valid_daily_time(0, 60).unwrap_err().message(), "Minute must be between 0 and 59");
}

#[test]
fn test_default_new_schedule_name() {
    let mut config = RuntimeConfigFile::default();
    assert_eq!(default_new_schedule_name(&config), "default");

    config.schedules.push(ScheduleConfig {
        name: "default".to_string(),
        workspace: "personal".to_string(),
        hour: 9,
        minute: 0,
    });
    assert_eq!(default_new_schedule_name(&config), "schedule-2");

    config.schedules.push(ScheduleConfig {
        name: "schedule-2".to_string(),
        workspace: "work".to_string(),
        hour: 18,
        minute: 30,
    });
    assert_eq!(default_new_schedule_name(&config), "schedule-3");
}

#[test]
fn launchd_installs_a_new_schedule() {
    let steps =
        install_workspace(&host(Platform::Launchd), "nightly", "team", 1, 5, &Vec::new()).unwrap();
    assert_eq!(
        outline(&steps),
        vec![
            "mkdir /home/u/Library/LaunchAgents",
            "mkdir /home/u/.local/share/worktree-gc",
            "write /home/u/Library/LaunchAgents/com.worktree-gc.nightly.plist",
            "run! launchctl load /home/u/Library/LaunchAgents/com.worktree-gc.nightly.plist",
            "show ✓ Schedule installed (launchd)",
            "show   Name: nightly",
            "show   Plist: /home/u/Library/LaunchAgents/com.worktree-gc.nightly.plist",
            "show   Binary: /bin/worktree-gc",
            "show   Time: 01:05 daily",
        ]
    );
    match &steps[2] {
        Step::WriteFile { content, .. } => {
            assert!(content.contains("<string>com.worktree-gc.nightly</string>"));
            assert!(content.contains("<string>/usr/bin:/bin</string>"));
            assert!(content.contains(
                "<string>/home/u/.local/share/worktree-gc/nightly-launchd-stdout.log</string>"
            ));
            assert!(content.contains(
                "<string>/home/u/.local/share/worktree-gc/nightly-launchd-stderr.log</string>"
            ));
            assert_eq!(extract_plist_time(content).as_deref(), Some("01:05 daily"));
        }
        other => panic!("{other:?}"),
    }
}

#[test]
fn launchd_moves_the_older_schedule_out_of_the_way() {
    let old = "/home/u/Library/LaunchAgents/com.worktree-gc.daily.plist";
    let own = "/home/u/Library/LaunchAgents/com.worktree-gc.default.plist";
    let steps =
        install_workspace(&host(Platform::Launchd), "default", "team", 1, 5, &paths(&[old, own])).unwrap();
    assert_eq!(
        outline(&steps)[2..6],
        [
            format!("run~ launchctl unload {old}"),
            format!("rm {old}"),
            format!("run? launchctl unload {own}"),
            format!("write {own}"),
        ]
    );
    let steps =
        install_workspace(&host(Platform::Launchd), "nightly", "team", 1, 5, &paths(&[old, own])).unwrap();
    assert!(!outline(&steps).iter().any(|step| step.contains("daily.plist") || step.contains("default.plist")));
}

#[test]
fn launchd_removes_what_is_there() {
    let old = "/home/u/Library/LaunchAgents/com.worktree-gc.daily.plist";
    let own = "/home/u/Library/LaunchAgents/com.worktree-gc.default.plist";
    let both = uninstall(&host(Platform::Launchd), "default", &paths(&[old, own])).unwrap();
    assert_eq!(
        outline(&both),
        vec![
            format!("run~ launchctl unload {own}"),
            format!("rm {own}"),
            "show ✓ Schedule removed".to_string(),
            "show   Name: default".to_string(),
            format!("show   Deleted: {own}"),
            format!("run~ launchctl unload {old}"),
            format!("rm {old}"),
            "show ✓ Legacy schedule removed".to_string(),
        ]
    );
    let none = uninstall(&host(Platform::Launchd), "default", &Vec::new()).unwrap();
    assert_eq!(
        outline(&none),
        vec![format!("show No schedule installed (plist not found: {own})")]
    );
}

#[test]
fn systemd_installs_a_schedule() {
    let dir = "/home/u/.config/systemd/user";
    let steps =
        install_workspace(&host(Platform::Systemd), "nightly", "team", 1, 5, &Vec::new()).unwrap();
    assert_eq!(
        outline(&steps),
        vec![
            format!("mkdir {dir}"),
            "mkdir /home/u/.local/share/worktree-gc".to_string(),
            "run? systemctl --user stop worktree-gc-nightly.timer".to_string(),
            "run? systemctl --user disable worktree-gc-nightly.timer".to_string(),
            format!("write {dir}/worktree-gc-nightly.service"),
            format!("write {dir}/worktree-gc-nightly.timer"),
            "run! systemctl --user daemon-reload".to_string(),
            "run! systemctl --user enable --now worktree-gc-nightly.timer".to_string(),
            "show ✓ Schedule installed (systemd)".to_string(),
            "show   Name: nightly".to_string(),
            format!("show   Service: {dir}/worktree-gc-nightly.service"),
            format!("show   Timer: {dir}/worktree-gc-nightly.timer"),
            "show   Binary: /bin/worktree-gc".to_string(),
            "show   Time: 01:05 daily".to_string(),
        ]
    );
}

#[test]
fn systemd_moves_the_older_schedule_out_of_the_way() {
    let old = "/home/u/.config/systemd/user/worktree-gc.service";
    let steps =
        install_workspace(&host(Platform::Systemd), "default", "team", 1, 5, &paths(&[old])).unwrap();
    assert_eq!(
        outline(&steps)[2..6],
        [
            "run? systemctl --user stop worktree-gc.timer".to_string(),
            "run? systemctl --user disable worktree-gc.timer".to_string(),
            format!("rm {old}"),
            "run? systemctl --user daemon-reload".to_string(),
        ]
    );
}

#[test]
fn systemd_removes_what_is_there() {
    let timer = "/home/u/.config/systemd/user/worktree-gc-default.timer";
    let old = "/home/u/.config/systemd/user/worktree-gc.timer";
    let steps = uninstall(&host(Platform::Systemd), "default", &paths(&[timer, old])).unwrap();
    assert_eq!(
        outline(&steps),
        vec![
            "run? systemctl --user stop worktree-gc-default.timer".to_string(),
            "run? systemctl --user disable worktree-gc-default.timer".to_string(),
            format!("rm {timer}"),
            format!("show   Deleted: {timer}"),
            "run? systemctl --user stop worktree-gc.timer".to_string(),
            "run? systemctl --user disable worktree-gc.timer".to_string(),
            format!("rm {old}"),
            "run? systemctl --user daemon-reload".to_string(),
            "show ✓ Legacy schedule removed".to_string(),
            "run? systemctl --user daemon-reload".to_string(),
            "show ✓ Schedule removed".to_string(),
            "show   Name: default".to_string(),
        ]
    );
    let none = uninstall(&host(Platform::Systemd), "nightly", &Vec::new()).unwrap();
    assert_eq!(
        outline(&none)[2..],
        [
            "run? systemctl --user daemon-reload".to_string(),
            "show No schedule installed (unit files not found)".to_string(),
        ]
    );
}

#[test]
fn refusals_come_in_order() {
    let mut lost = host(Platform::Launchd);
    lost.home = None;
    lost.exe = Err("gone".to_string());
    let refused = |host: &Host, name: &str, workspace: &str| {
        install_workspace(host, name, workspace, 1, 5, &Vec::new()).unwrap_err().message().to_string()
    };
    assert_eq!(refused(&lost, "Bad", "Bad"), "workspace name must start with a lowercase letter or digit");
    assert_eq!(refused(&lost, "Bad", "team"), "Cannot determine binary path");
    let e = install_workspace(&lost, "good", "team", 1, 5, &Vec::new()).unwrap_err();
    assert_eq!(e.cause(), Some("gone"));
    lost.exe = Ok("/bin/w".to_string());
    assert_eq!(refused(&lost, "Bad", "team"), "schedule name must start with a lowercase letter or digit");
    assert_eq!(refused(&lost, "good", "team"), "Cannot determine home directory");
    assert_eq!(
        uninstall(&lost, "Bad", &Vec::new()).unwrap_err().message(),
        "Cannot determine home directory"
    );
    lost.platform = Platform::Systemd;
    assert_eq!(
        uninstall(&lost, "Bad", &Vec::new()).unwrap_err().message(),
        "schedule name must start with a lowercase letter or digit"
    );
    assert_eq!(
        uninstall(&lost, "good", &Vec::new()).unwrap_err().message(),
        "Cannot determine home directory"
    );
    assert_eq!(
        refused(&host(Platform::Unsupported), "Bad", "Bad"),
        "Scheduled execution is not supported on this platform. Supported: macOS (launchd), Linux (systemd)."
    );
    assert_eq!(
        uninstall(&host(Platform::Unsupported), "Bad", &Vec::new()).unwrap_err().message(),
        "Scheduled execution is not supported on this platform."
    );
}

#[test]
fn the_questions_to_the_scheduler_are_known() {
    assert_eq!(words(&listing_command()), "launchctl list");
    assert_eq!(words(&active_command("worktree-gc-x")), "systemctl --user is-active worktree-gc-x.timer");
    assert_eq!(
        words(&list_timers_command("worktree-gc-x")),
        "systemctl --user list-timers worktree-gc-x.timer --no-pager"
    );
}

#[test]
fn what_an_installation_writes_a_removal_removes() {
    for platform in [Platform::Launchd, Platform::Systemd] {
        let host = host(platform);
        let steps = install_workspace(&host, "x", "team", 1, 5, &Vec::new()).unwrap();
        let written: Vec<String> = steps
            .iter()
            .filter_map(|step| match step {
                Step::WriteFile { path, .. } => Some(path.clone()),
                _ => None,
            })
            .collect();
        assert!(!written.is_empty());
        let steps = uninstall(&host, "x", &written).unwrap();
        for path in &written {
            assert!(steps.iter().any(|step| matches!(step, Step::RemoveFile { path: p, .. } if p == path)));
        }
    }
}

#[test]
fn the_files_of_a_schedule_are_known() {
    assert_eq!(
        schedule_files(&host(Platform::Launchd), "x"),
        vec![
            "/home/u/Library/LaunchAgents/com.worktree-gc.x.plist",
            "/home/u/Library/LaunchAgents/com.worktree-gc.daily.plist",
        ]
    );
    assert_eq!(
        schedule_files(&host(Platform::Systemd), "x"),
        vec![
            "/home/u/.config/systemd/user/worktree-gc-x.service",
            "/home/u/.config/systemd/user/worktree-gc-x.timer",
            "/home/u/.config/systemd/user/worktree-gc.service",
            "/home/u/.config/systemd/user/worktree-gc.timer",
        ]
    );
    assert!(schedule_files(&host(Platform::Systemd), "daily").is_empty());
    assert!(schedule_files(&host(Platform::Unsupported), "x").is_empty());
}

#[test]
fn a_failing_command_means_what_its_step_says() {
    let bad = Outcome::Exited { success: false, stdout: String::new(), stderr: " why \n".to_string() };
    let started = Some("Failed to run it".to_string());
    assert!(matches!(judge(&done(""), &started, &OnFailure::Stop("it failed".to_string())), Verdict::Continue));
    match judge(&bad, &started, &OnFailure::Stop("it failed".to_string())) {
        Verdict::Stop(e) => assert_eq!(e.message(), "it failed:  why \n"),
        other => panic!("{other:?}"),
    }
    match judge(&bad, &started, &OnFailure::Warn("it warned".to_string())) {
        Verdict::Warn(words) => assert_eq!(words, "it warned: why"),
        other => panic!("{other:?}"),
    }
    assert!(matches!(judge(&bad, &started, &OnFailure::Ignore), Verdict::Continue));
    match judge(&not_started(), &started, &OnFailure::Ignore) {
        Verdict::Stop(e) => assert_eq!((e.message(), e.cause()), ("Failed to run it", Some("no such file"))),
        other => panic!("{other:?}"),
    }
    assert!(matches!(judge(&not_started(), &None, &OnFailure::Stop("x".to_string())), Verdict::Continue));
}

fn unit(name: &str, file: FileState, active: Outcome, timers: Outcome) -> UnitWatch {
    UnitWatch { name: name.to_string(), file, active, timers }
}

#[test]
fn launchd_shows_the_state_of_schedules() {
    let plist = render_launchd_plist("l", "/e", &Vec::new(), "/p", "/o", "/e", 7, 30);
    let watch = SchedulerWatch {
        listing: done("PID\tStatus\tLabel\n-\t0\tcom.worktree-gc.a\n"),
        units: vec![
            unit("b", FileState::Content(plist.clone()), not_started(), not_started()),
            unit("a", FileState::Content(plist), not_started(), not_started()),
        ],
        legacy_installed: true,
    };
    let report = print_config(&host(Platform::Launchd), &paths(&["c", "b", "a", "b"]), &watch);
    assert!(report.error.is_none());
    let dir = "/home/u/Library/LaunchAgents";
    assert_eq!(
        texts(&report.lines),
        vec![
            "Schedule configuration".to_string(),
            "  Scheduler: launchd".to_string(),
            "  a active".to_string(),
            format!("    Plist: {dir}/com.worktree-gc.a.plist"),
            "    Time: 07:30 daily".to_string(),
            "  b installed but not loaded".to_string(),
            format!("    Plist: {dir}/com.worktree-gc.b.plist"),
            "    Time: 07:30 daily".to_string(),
            format!("    Activate: launchctl load {dir}/com.worktree-gc.b.plist"),
            "  c not installed".to_string(),
            format!("    Plist: {dir}/com.worktree-gc.c.plist"),
            "  legacy daily installed".to_string(),
            format!("    Plist: {dir}/com.worktree-gc.daily.plist"),
        ]
    );
}

#[test]
fn a_report_ends_with_its_first_error() {
    let mut watch = SchedulerWatch {
        listing: not_started(),
        units: vec![unit(
            "a",
            FileState::Unreadable("denied".to_string()),
            not_started(),
            not_started(),
        )],
        legacy_installed: true,
    };
    let report = print_config(&host(Platform::Launchd), &paths(&["a"]), &watch);
    let e = report.error.unwrap();
    assert_eq!((e.message(), e.cause()), ("Failed to run launchctl list", Some("no such file")));
    assert_eq!(report.lines.len(), 2);
    watch.listing = done("");
    let report = print_config(&host(Platform::Launchd), &paths(&["a", "b"]), &watch);
    assert_eq!(report.error.unwrap().message(), "denied");
    assert_eq!(report.lines.len(), 4);
    let report = print_config(&host(Platform::Launchd), &paths(&["B", "a"]), &watch);
    assert_eq!(
        report.error.unwrap().message(),
        "schedule name must start with a lowercase letter or digit"
    );
    assert_eq!(report.lines.len(), 2);
    let report = print_config(&host(Platform::Systemd), &paths(&["a"]), &watch);
    let e = report.error.unwrap();
    assert_eq!((e.message(), e.cause()), ("Failed to check timer status", Some("no such file")));
    let mut lost = host(Platform::Systemd);
    lost.home = None;
    let report = print_config(&lost, &Vec::new(), &watch);
    assert_eq!(report.error.unwrap().message(), "Cannot determine home directory");
}

#[test]
fn systemd_shows_the_state_of_schedules() {
    let watch = SchedulerWatch {
        listing: not_started(),
        units: vec![unit(
            "default",
            FileState::Content(render_systemd_timer("default", 9, 0)),
            done("active\n"),
            done("NEXT LEFT\nTomorrow 09:00\n1 timers listed.\n"),
        )],
        legacy_installed: false,
    };
    let report = print_config(&host(Platform::Systemd), &Vec::new(), &watch);
    assert!(report.error.is_none());
    let dir = "/home/u/.config/systemd/user";
    assert_eq!(
        texts(&report.lines),
        vec![
            "Schedule configuration".to_string(),
            "  Scheduler: systemd".to_string(),
            "  default active".to_string(),
            format!("    Service: {dir}/worktree-gc-default.service"),
            format!("    Timer: {dir}/worktree-gc-default.timer"),
            "    Schedule: *-*-* 09:00:00".to_string(),
            "    Next run: Tomorrow 09:00".to_string(),
        ]
    );
}

#[test]
fn a_request_for_a_schedule_is_checked() {
    let args = paths(&["x", "schedule", "install"]);
    let with_dir = paths(&["x", "schedule", "install", "--dir=/r"]);
    assert!(check_install(&cli(None), "a", 9, 0, &with_dir).is_ok());
    assert!(check_install(&cli(Some("team")), "a", 9, 0, &args).is_ok());
    let refused = |cli: &Cli, name: &str, hour: u8, args: &Vec<String>| {
        check_install(cli, name, hour, 0, args).unwrap_err().message().to_string()
    };
    assert_eq!(refused(&cli(None), "A", 24, &args), "Hour must be between 0 and 23");
    assert_eq!(
        refused(&cli(None), "A", 9, &args),
        "schedule name must start with a lowercase letter or digit"
    );
    assert_eq!(
        refused(&cli(Some("team")), "a", 9, &with_dir),
        "Use either --workspace or --dir/--log-file when installing a schedule, not both"
    );
}

#[test]
fn a_requested_schedule_finds_its_workspace() {
    let mut config = RuntimeConfigFile::default();
    let e = schedule_workspace(&cli(Some("team")), &mut config).unwrap_err();
    assert_eq!(e.message(), "Workspace not found: team");
    assert!(config.workspaces.is_empty());
    assert_eq!(schedule_workspace(&cli(None), &mut config).unwrap(), "default");
    assert_eq!(
        config.workspaces,
        vec![WorkspaceConfig {
            name: "default".to_string(),
            dir: "/repos".to_string(),
            log_file: Some("/gc.jsonl".to_string()),
        }]
    );
    assert_eq!(schedule_workspace(&cli(Some("default")), &mut config).unwrap(), "default");
    let lines = install_from_parts(&mut config, "nightly", "default", 1, 5, "/c.json");
    assert_eq!(
        texts(&lines),
        vec!["  Schedule:  nightly", "  Workspace: default", "  Config:    /c.json"]
    );
    assert_eq!(config.schedules.len(), 1);
    assert_eq!((config.schedules[0].hour, config.schedules[0].minute), (1, 5));
}

#[test]
fn all_schedules_go_with_the_usual_one() {
    let mut config = RuntimeConfigFile {
        schedules: vec![schedule("z", 1, 2), schedule("a", 3, 4), schedule("z", 5, 6)],
        ..RuntimeConfigFile::default()
    };
    assert_eq!(configured_names(&config), vec!["z", "a", "z"]);
    assert_eq!(all_schedule_names(&config), vec!["a", "default", "z"]);
    assert_eq!(text(&forget_schedule(&mut config, "z")), "Removed schedule metadata: z");
    assert_eq!(configured_names(&config), vec!["a"]);
    assert_eq!(text(&forget_all_schedules(&mut config)), "Removed all registered schedules.");
    assert!(config.schedules.is_empty());
    assert_eq!(all_schedule_names(&config), vec!["default"]);
}

#[test]
fn schedules_are_shown_and_asked_for() {
    let empty = RuntimeConfigFile::default();
    assert_eq!(texts(&print_registered(&empty)), vec!["Registered schedules:", "  (none)"]);
    let config = RuntimeConfigFile { schedules: vec![schedule("a", 9, 5)], ..RuntimeConfigFile::default() };
    assert_eq!(
        texts(&print_registered(&config)),
        vec!["Registered schedules:", "  a", "    Workspace: team", "    Time:      09:05 daily"]
    );
    let menu = schedule_menu(&config, "Select a schedule to update");
    assert_eq!(menu.choices, vec!["a (team, 09:05)"]);
    assert_eq!(menu.prompt, "Select a schedule to update");
    assert_eq!(interactive_wizard(&empty, "/log").default, 0);
    let wizard = interactive_wizard(&config, "/log");
    assert_eq!(wizard.default, 1);
    assert_eq!(
        wizard.choices,
        vec!["Add schedule", "Update schedule", "Remove schedule", "Show scheduler status", "Cancel"]
    );
    assert_eq!(text(&wizard.heading[1]), "  worktree-gc scheduler");
    assert_eq!(wizard_choice(0), WizardChoice::Add);
    assert_eq!(wizard_choice(1), WizardChoice::Update);
    assert_eq!(wizard_choice(2), WizardChoice::Remove);
    assert_eq!(wizard_choice(3), WizardChoice::Status);
    assert_eq!(wizard_choice(4), WizardChoice::Cancel);
    assert!(check_new_schedule(&config, "b").is_ok());
    assert_eq!(
        check_new_schedule(&config, "a").unwrap_err().message(),
        "Schedule already exists: a"
    );
    assert_eq!(removal_prompt("a"), "Remove schedule 'a'?");
    assert_eq!(
        texts(&print_schedule_summary("a", "team", 9, 5)),
        vec!["", "  Summary:", "  Schedule:  a", "  Workspace: team", "  Run daily: 09:05", ""]
    );
}
