use worktree_gc::command::{CommandLine, Outcome};
use worktree_gc::plan::Step;
use worktree_gc::platform::{scheduler_name, FileState, Host, Platform};
use worktree_gc::plist::{extract_plist_time, render_launchd_plist};
use worktree_gc::schedule::parse_daily_time;
use worktree_gc::scheduler::{
    first_question, install, interactive_wizard, is_installed, print_config, summary_lines, uninstall,
    wizard_heading_lines, wizard_menu, Answer, Question, WizardMove,
};
use worktree_gc::systemd::extract_systemd_timer_schedule;
use worktree_gc::ui::Line;

fn text(line: &Line) -> String {
    line.spans.iter().map(|span| span.text.as_str()).collect()
}

fn texts(lines: &[Line]) -> Vec<String> {
    lines.iter().map(text).collect()
}

fn words(command: &CommandLine) -> String {
    let mut all = vec![command.program.clone()];
    all.extend(command.args.iter().cloned());
    all.join(" ")
}

fn outline(steps: &[Step]) -> Vec<String> {
    steps
        .iter()
        .map(|step| match step {
            Step::Show(line) => format!("show {}", text(line)),
            Step::CreateDir { path } => format!("mkdir {path}"),
            Step::WriteFile { path, .. } => format!("write {path}"),
            Step::RemoveFile { path, .. } => format!("rm {path}"),
            Step::Run { command, .. } => format!("run {}", words(command)),
        })
        .collect()
}

fn host(platform: Platform) -> Host {
    Host {
        platform,
        home: Some("/home/u".to_string()),
        exe: Ok("/bin/w".to_string()),
        search_path: "/usr/bin".to_string(),
    }
}

fn done(stdout: &str) -> Outcome {
    Outcome::Exited { success: true, stdout: stdout.to_string(), stderr: String::new() }
}

const PLIST: &str = "/home/u/Library/LaunchAgents/com.worktree-gc.daily.plist";
const SERVICE: &str = "/home/u/.config/systemd/user/worktree-gc.service";
const TIMER: &str = "/home/u/.config/systemd/user/worktree-gc.timer";

#[test]
fn scheduler_test_parse_daily_time() {
    assert_eq!(parse_daily_time("09:00"), Some((9, 0)));
    assert_eq!(parse_daily_time("18:30"), Some((18, 30)));
    assert_eq!(parse_daily_time("24:00"), None);
    assert_eq!(parse_daily_time("09:60"), None);
    assert_eq!(parse_daily_time("9:00"), None);
}

#[test]
fn scheduler_test_extract_systemd_timer_schedule() {
    let content = "\
[Timer]
OnCalendar=*-*-* 09:00:00
        Persistent=true
";

    assert_eq!(
        extract_systemd_timer_schedule(content).as_deref(),
        Some("*-*-* 09:00:00")
    );
}

#[test]
fn the_daily_run_is_installed_under_launchd() {
    let steps = install(&host(Platform::Launchd), "/repos", 9, 5, &vec![PLIST.to_string()]).unwrap();
    assert_eq!(
        outline(&steps),
        vec![
            "mkdir /home/u/Library/LaunchAgents".to_string(),
            "mkdir /home/u/.local/share/worktree-gc".to_string(),
            format!("run launchctl unload {PLIST}"),
            format!("write {PLIST}"),
            format!("run launchctl load {PLIST}"),
            "show ✓ Schedule installed (launchd)".to_string(),
            format!("show   Plist:    {PLIST}"),
            "show   Binary:   /bin/w".to_string(),
            "show   Scan dir: /repos".to_string(),
            "show   Time:     09:05 daily".to_string(),
            "show   Log:      /home/u/.local/share/worktree-gc/gc.jsonl".to_string(),
        ]
    );
    match &steps[3] {
        Step::WriteFile { content, .. } => {
            assert!(content.contains("        <string>--dir</string>\n        <string>/repos</string>\n"));
            assert!(content.contains("<string>/home/u/.local/share/worktree-gc/launchd-stdout.log</string>"));
            assert_eq!(extract_plist_time(content).as_deref(), Some("09:05 daily"));
        }
        other => panic!("{other:?}"),
    }
}

#[test]
fn the_daily_run_is_installed_under_systemd() {
    let steps = install(&host(Platform::Systemd), "/repos", 9, 5, &Vec::new()).unwrap();
    assert_eq!(
        outline(&steps),
        vec![
            "mkdir /home/u/.config/systemd/user".to_string(),
            "mkdir /home/u/.local/share/worktree-gc".to_string(),
            "run systemctl --user stop worktree-gc.timer".to_string(),
            "run systemctl --user disable worktree-gc.timer".to_string(),
            format!("write {SERVICE}"),
            format!("write {TIMER}"),
            "run systemctl --user daemon-reload".to_string(),
            "run systemctl --user enable --now worktree-gc.timer".to_string(),
            "show ✓ Schedule installed (systemd)".to_string(),
            format!("show   Service:  {SERVICE}"),
            format!("show   Timer:    {TIMER}"),
            "show   Binary:   /bin/w".to_string(),
            "show   Scan dir: /repos".to_string(),
            "show   Time:     09:05 daily".to_string(),
            "show   Log:      /home/u/.local/share/worktree-gc/gc.jsonl".to_string(),
        ]
    );
    match &steps[4] {
        Step::WriteFile { content, .. } => assert_eq!(
            content,
            "[Unit]\nDescription=Clean up git worktrees whose PRs have been merged\n\n[Service]\nType=oneshot\nExecStart=/bin/w run --dir /repos --log-file /home/u/.local/share/worktree-gc/gc.jsonl\n\n[Install]\nWantedBy=default.target\n"
        ),
        other => panic!("{other:?}"),
    }
}

#[test]
fn the_daily_run_is_refused_where_it_cannot_be() {
    let mut lost = host(Platform::Launchd);
    lost.exe = Err("gone".to_string());
    lost.home = None;
    assert_eq!(
        install(&lost, "/r", 9, 5, &Vec::new()).unwrap_err().message(),
        "Cannot determine binary path"
    );
    assert_eq!(install(&lost, "/r", 9, 5, &Vec::new()).unwrap_err().cause(), Some("gone"));
    lost.exe = Ok("/bin/w".to_string());
    assert_eq!(
        install(&lost, "/r", 9, 5, &Vec::new()).unwrap_err().message(),
        "Cannot determine home directory"
    );
    assert_eq!(uninstall(&lost, &Vec::new()).unwrap_err().message(), "Cannot determine home directory");
    assert_eq!(
        install(&host(Platform::Unsupported), "/r", 9, 5, &Vec::new()).unwrap_err().message(),
        "Scheduled execution is not supported on this platform. Supported: macOS (launchd), Linux (systemd)."
    );
    assert_eq!(
        uninstall(&host(Platform::Unsupported), &Vec::new()).unwrap_err().message(),
        "Scheduled execution is not supported on this platform."
    );
}

#[test]
fn the_daily_run_is_removed() {
    let steps = uninstall(&host(Platform::Launchd), &vec![PLIST.to_string()]).unwrap();
    assert_eq!(
        outline(&steps),
        vec![
            format!("run launchctl unload {PLIST}"),
            format!("rm {PLIST}"),
            "show ✓ Schedule removed".to_string(),
            format!("show   Deleted: {PLIST}"),
        ]
    );
    assert_eq!(
        outline(&uninstall(&host(Platform::Launchd), &Vec::new()).unwrap()),
        vec!["show No schedule installed (plist not found)"]
    );
    let steps = uninstall(&host(Platform::Systemd), &vec![SERVICE.to_string(), TIMER.to_string()]).unwrap();
    assert_eq!(
        outline(&steps),
        vec![
            "run systemctl --user stop worktree-gc.timer".to_string(),
            "run systemctl --user disable worktree-gc.timer".to_string(),
            format!("rm {TIMER}"),
            format!("rm {SERVICE}"),
            "run systemctl --user daemon-reload".to_string(),
            "show ✓ Schedule removed".to_string(),
        ]
    );
    assert_eq!(
        outline(&uninstall(&host(Platform::Systemd), &Vec::new()).unwrap()),
        vec!["show No schedule installed (unit files not found)"]
    );
}

#[test]
fn the_state_of_the_daily_run_is_shown() {
    let none = Outcome::NotStarted { cause: "no such file".to_string() };
    let report = print_config(&host(Platform::Launchd), &FileState::Absent, &none, &none, &none);
    assert_eq!(
        texts(&report.lines),
        vec![
            "Schedule configuration:".to_string(),
            "  Scheduler: launchd".to_string(),
            "  Status:    not installed".to_string(),
            format!("  Plist:     {PLIST}"),
        ]
    );
    let file = FileState::Content(render_launchd_plist("l", "/e", &Vec::new(), "/p", "/o", "/e", 7, 30));
    let report = print_config(&host(Platform::Launchd), &file, &done("x"), &none, &none);
    assert_eq!(
        texts(&report.lines)[2..],
        [
            "  Status:    installed but not loaded".to_string(),
            format!("  Plist:     {PLIST}"),
            "  Time:      07:30 daily".to_string(),
            format!("  Activate:  launchctl load {PLIST}"),
        ]
    );
    let report =
        print_config(&host(Platform::Launchd), &file, &done("0 com.worktree-gc.daily"), &none, &none);
    assert_eq!(text(&report.lines[2]), "  Status:    active");
    assert_eq!(report.lines.len(), 5);
    let report = print_config(&host(Platform::Launchd), &file, &none, &none, &none);
    let e = report.error.unwrap();
    assert_eq!((e.message(), e.cause()), ("Failed to run launchctl list", Some("no such file")));
    let timer = FileState::Content("OnCalendar=x\n".to_string());
    let report = print_config(&host(Platform::Systemd), &timer, &none, &done("active\n"), &done("a\nb\nc"));
    assert_eq!(
        texts(&report.lines),
        vec![
            "Schedule configuration:".to_string(),
            "  Scheduler: systemd".to_string(),
            "  Status:    active".to_string(),
            format!("  Service:   {SERVICE}"),
            format!("  Timer:     {TIMER}"),
            "  Schedule:  x".to_string(),
            "  Next run:  b".to_string(),
        ]
    );
    let report = print_config(&host(Platform::Systemd), &timer, &none, &none, &none);
    assert_eq!(report.error.unwrap().message(), "Failed to check timer status");
    let report = print_config(&host(Platform::Unsupported), &timer, &none, &none, &none);
    assert_eq!(
        texts(&report.lines),
        vec![
            "Schedule configuration:",
            "  Scheduler: unsupported",
            "  Status:    not supported on this platform",
        ]
    );
    assert!(is_installed(&host(Platform::Launchd), &vec![PLIST.to_string()]));
    assert!(is_installed(&host(Platform::Systemd), &vec![TIMER.to_string()]));
    assert!(!is_installed(&host(Platform::Systemd), &vec![SERVICE.to_string()]));
    assert!(!is_installed(&host(Platform::Unsupported), &vec![TIMER.to_string()]));
    assert_eq!(scheduler_name(Platform::Unsupported), "unsupported");
}

#[test]
fn the_wizard_acts_only_on_agreement() {
    assert_eq!(first_question(true), Question::Menu);
    assert_eq!(first_question(false), Question::ConfirmSetup);
    let next = interactive_wizard;
    assert_eq!(next(true, Question::Menu, Answer::Selected(0)), WizardMove::Ask(Question::Settings));
    assert_eq!(next(true, Question::Menu, Answer::Selected(1)), WizardMove::Ask(Question::ConfirmRemoval));
    assert_eq!(next(true, Question::Menu, Answer::Selected(2)), WizardMove::Cancel);
    assert_eq!(next(true, Question::ConfirmRemoval, Answer::Confirmed(true)), WizardMove::Uninstall);
    assert_eq!(next(true, Question::ConfirmRemoval, Answer::Confirmed(false)), WizardMove::Cancel);
    assert_eq!(next(true, Question::Settings, Answer::Given), WizardMove::Install);
    assert_eq!(next(false, Question::ConfirmSetup, Answer::Confirmed(true)), WizardMove::Ask(Question::Settings));
    assert_eq!(next(false, Question::ConfirmSetup, Answer::Confirmed(false)), WizardMove::Cancel);
    assert_eq!(next(false, Question::Settings, Answer::Given), WizardMove::Ask(Question::ConfirmInstall));
    assert_eq!(next(false, Question::ConfirmInstall, Answer::Confirmed(true)), WizardMove::Install);
    assert_eq!(next(false, Question::ConfirmInstall, Answer::Confirmed(false)), WizardMove::Cancel);
    assert_eq!(
        next(false, Question::ConfirmInstall, Answer::Given),
        WizardMove::Ask(Question::ConfirmInstall)
    );
}

#[test]
fn the_wizard_says_what_it_is_about() {
    assert_eq!(
        texts(&wizard_heading_lines("macos", Platform::Launchd)),
        vec!["", "  ⏰ worktree-gc scheduler", "     Platform: macos (launchd)", ""]
    );
    assert_eq!(
        wizard_menu().choices,
        vec!["Update schedule (change time or directory)", "Remove schedule", "Cancel"]
    );
    assert_eq!(
        texts(&summary_lines(".", 9, 0, Platform::Launchd)),
        vec![
            "",
            "  Summary:",
            "  Scan directory: .",
            "  Run daily at:   09:00",
            "  Scheduler:      launchd",
            "",
        ]
    );
}
