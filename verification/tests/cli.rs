use worktree_gc::cli::{
    apply_runtime_config_values, command_menu, has_cli_option, interactive_command_menu, run_gc_from_command,
    set_runtime_config, should_open_interactive_menu, show_config, startup, unset_runtime_config, Cli, Commands,
    ConfigField, HistoryLast, Startup,
};
use worktree_gc::command::Outcome;
use worktree_gc::config::{RuntimeConfigFile, ScheduleConfig, WorkspaceConfig};
use worktree_gc::platform::{Host, Platform, SchedulerWatch};
use worktree_gc::ui::Line;

fn text(line: &Line) -> String {
    line.spans.iter().map(|span| span.text.as_str()).collect()
}

fn texts(lines: &[Line]) -> Vec<String> {
    lines.iter().map(text).collect()
}

fn args(all: &[&str]) -> Vec<String> {
    all.iter().map(|arg| arg.to_string()).collect()
}

#[test]
fn test_should_open_interactive_menu_only_for_bare_command() {
    assert!(should_open_interactive_menu(&args(&["worktree-gc"])));
    assert!(!should_open_interactive_menu(&args(&["worktree-gc", "--dry-run"])));
    assert!(!should_open_interactive_menu(&args(&["worktree-gc", "-d", "/tmp/repos"])));
}

#[test]
fn test_has_cli_option_detects_short_and_long_forms() {
    assert!(has_cli_option(&args(&["worktree-gc", "-d"]), Some("-d"), "--dir"));
    assert!(has_cli_option(&args(&["worktree-gc", "--dir=/tmp/repos"]), Some("-d"), "--dir"));
    assert!(has_cli_option(
        &args(&["worktree-gc", "--log-file", "/tmp/gc.jsonl"]),
        None,
        "--log-file"
    ));
    assert!(!has_cli_option(&args(&["worktree-gc", "config"]), Some("-d"), "--dir"));
}

#[test]
fn options_are_whole_words_behind_the_program() {
    assert!(!has_cli_option(&args(&["--dir"]), Some("-d"), "--dir"));
    assert!(!has_cli_option(&args(&["x", "--directory"]), Some("-d"), "--dir"));
    assert!(!has_cli_option(&args(&["x", "-d"]), None, "--dir"));
    assert!(!has_cli_option(&[].to_vec(), Some("-d"), "--dir"));
}

#[test]
fn a_short_option_is_found_in_every_spelling() {
    for arg in ["-d", "-d/repos", "-d=/repos", "-nd/repos", "-vd", "-nvd", "-vn-d"] {
        let expected = arg != "-vn-d";
        assert_eq!(has_cli_option(&args(&["x", arg]), Some("-d"), "--dir"), expected, "{arg}");
    }
    for arg in ["-", "--", "--d", "--directory", "-n", "-nv", "-ad", "-rd", "-and", "d", "nd", ""] {
        assert!(!has_cli_option(&args(&["x", arg]), Some("-d"), "--dir"), "{arg}");
    }
    assert!(has_cli_option(&args(&["x", "-vn"]), Some("-n"), "--dry-run"));
    assert!(!has_cli_option(&args(&["x", "--dir"]), Some("--"), "--log-file"));
}

#[test]
fn a_directory_right_behind_its_letter_beats_the_saved_one() {
    for arg in ["-d/repos", "-nd/repos"] {
        let mut cli = Cli {
            command: None,
            dir: "/repos".to_string(),
            dry_run: false,
            verbose: false,
            log_file: "/l".to_string(),
            workspace: None,
        };
        let config = RuntimeConfigFile { dir: Some("/saved".to_string()), ..RuntimeConfigFile::default() };
        let given = args(&["worktree-gc", "run", arg]);
        apply_runtime_config_values(&mut cli, &given, &config, false, false).unwrap();
        assert_eq!(cli.dir, "/repos");
        let given = args(&["worktree-gc", "run"]);
        apply_runtime_config_values(&mut cli, &given, &config, false, false).unwrap();
        assert_eq!(cli.dir, "/saved");
    }
}

#[test]
fn test_apply_runtime_config_uses_workspace_before_legacy_defaults() {
    let mut cli = Cli {
        command: None,
        dir: "/builtin".to_string(),
        dry_run: false,
        verbose: false,
        log_file: "/builtin/gc.jsonl".to_string(),
        workspace: Some("team".to_string()),
    };
    let config = RuntimeConfigFile {
        dir: Some("/legacy".to_string()),
        log_file: Some("/legacy/gc.jsonl".to_string()),
        workspaces: vec![WorkspaceConfig {
            name: "team".to_string(),
            dir: "/workspaces/team".to_string(),
            log_file: Some("/workspaces/team/gc.jsonl".to_string()),
        }],
        schedules: Vec::new(),
    };

    apply_runtime_config_values(
        &mut cli,
        &args(&["worktree-gc", "run", "--workspace", "team"]),
        &config,
        false,
        false,
    )
    .unwrap();

    assert_eq!(cli.dir, "/workspaces/team");
    assert_eq!(cli.log_file, "/workspaces/team/gc.jsonl");
}

#[test]
fn test_apply_runtime_config_cli_dir_overrides_workspace_dir() {
    let mut cli = Cli {
        command: None,
        dir: "/override".to_string(),
        dry_run: false,
        verbose: false,
        log_file: "/builtin/gc.jsonl".to_string(),
        workspace: Some("team".to_string()),
    };
    let config = RuntimeConfigFile {
        dir: Some("/legacy".to_string()),
        log_file: Some("/legacy/gc.jsonl".to_string()),
        workspaces: vec![WorkspaceConfig {
            name: "team".to_string(),
            dir: "/workspaces/team".to_string(),
            log_file: Some("/workspaces/team/gc.jsonl".to_string()),
        }],
        schedules: Vec::new(),
    };

    apply_runtime_config_values(
        &mut cli,
        &args(&["worktree-gc", "run", "--workspace", "team", "--dir", "/override"]),
        &config,
        false,
        false,
    )
    .unwrap();

    assert_eq!(cli.dir, "/override");
    assert_eq!(cli.log_file, "/workspaces/team/gc.jsonl");
}

#[test]
fn test_apply_runtime_config_uses_global_log_when_workspace_log_is_default() {
    let mut cli = Cli {
        command: None,
        dir: "/builtin".to_string(),
        dry_run: false,
        verbose: false,
        log_file: "/builtin/gc.jsonl".to_string(),
        workspace: Some("team".to_string()),
    };
    let config = RuntimeConfigFile {
        dir: Some("/legacy".to_string()),
        log_file: Some("/global/gc.jsonl".to_string()),
        workspaces: vec![WorkspaceConfig {
            name: "team".to_string(),
            dir: "/workspaces/team".to_string(),
            log_file: None,
        }],
        schedules: Vec::new(),
    };

    apply_runtime_config_values(
        &mut cli,
        &args(&["worktree-gc", "--workspace=team"]),
        &config,
        false,
        false,
    )
    .unwrap();

    assert_eq!(cli.dir, "/workspaces/team");
    assert_eq!(cli.log_file, "/global/gc.jsonl");
}

#[test]
fn test_apply_runtime_config_explicit_log_overrides_workspace_log() {
    let mut cli = Cli {
        command: None,
        dir: "/builtin".to_string(),
        dry_run: false,
        verbose: false,
        log_file: "/explicit/gc.jsonl".to_string(),
        workspace: Some("team".to_string()),
    };
    let config = RuntimeConfigFile {
        dir: Some("/legacy".to_string()),
        log_file: Some("/global/gc.jsonl".to_string()),
        workspaces: vec![WorkspaceConfig {
            name: "team".to_string(),
            dir: "/workspaces/team".to_string(),
            log_file: Some("/workspaces/team/gc.jsonl".to_string()),
        }],
        schedules: Vec::new(),
    };

    apply_runtime_config_values(
        &mut cli,
        &args(&["worktree-gc", "--workspace", "team", "--log-file=/explicit/gc.jsonl"]),
        &config,
        false,
        false,
    )
    .unwrap();

    assert_eq!(cli.dir, "/workspaces/team");
    assert_eq!(cli.log_file, "/explicit/gc.jsonl");
}

#[test]
fn test_apply_runtime_config_rejects_unknown_workspace() {
    let mut cli = Cli {
        command: None,
        dir: "/builtin".to_string(),
        dry_run: false,
        verbose: false,
        log_file: "/builtin/gc.jsonl".to_string(),
        workspace: Some("missing".to_string()),
    };

    let result = apply_runtime_config_values(
        &mut cli,
        &args(&["worktree-gc", "--workspace=missing"]),
        &RuntimeConfigFile::default(),
        false,
        false,
    );

    assert!(result.is_err());
}

fn bare(workspace: Option<&str>) -> Cli {
    Cli {
        command: None,
        dir: "/builtin".to_string(),
        dry_run: false,
        verbose: false,
        log_file: "/builtin/gc.jsonl".to_string(),
        workspace: workspace.map(|name| name.to_string()),
    }
}

fn saved() -> RuntimeConfigFile {
    RuntimeConfigFile {
        dir: Some("/saved".to_string()),
        log_file: Some("/saved/gc.jsonl".to_string()),
        workspaces: Vec::new(),
        schedules: Vec::new(),
    }
}

#[test]
fn given_beats_saved_beats_built_in() {
    let mut cli = bare(None);
    apply_runtime_config_values(&mut cli, &args(&["x", "run"]), &saved(), false, false).unwrap();
    assert_eq!((cli.dir.as_str(), cli.log_file.as_str()), ("/saved", "/saved/gc.jsonl"));

    let mut cli = bare(None);
    apply_runtime_config_values(&mut cli, &args(&["x", "run"]), &saved(), true, true).unwrap();
    assert_eq!((cli.dir.as_str(), cli.log_file.as_str()), ("/builtin", "/builtin/gc.jsonl"));

    let mut cli = bare(None);
    apply_runtime_config_values(&mut cli, &args(&["x", "-d", "/builtin"]), &saved(), false, false).unwrap();
    assert_eq!((cli.dir.as_str(), cli.log_file.as_str()), ("/builtin", "/saved/gc.jsonl"));

    let mut cli = bare(None);
    apply_runtime_config_values(&mut cli, &args(&["x"]), &RuntimeConfigFile::default(), false, false).unwrap();
    assert_eq!((cli.dir.as_str(), cli.log_file.as_str()), ("/builtin", "/builtin/gc.jsonl"));
}

#[test]
fn a_refused_workspace_changes_nothing() {
    let mut cli = bare(Some("Team"));
    let e = apply_runtime_config_values(&mut cli, &args(&["x"]), &saved(), false, false).unwrap_err();
    assert_eq!(e.message(), "workspace name must start with a lowercase letter or digit");
    assert_eq!((cli.dir.as_str(), cli.log_file.as_str()), ("/builtin", "/builtin/gc.jsonl"));
    let mut cli = bare(Some("missing"));
    let e = apply_runtime_config_values(&mut cli, &args(&["x"]), &saved(), false, false).unwrap_err();
    assert_eq!(e.message(), "Workspace not found: missing");
    assert_eq!(cli.dir, "/builtin");
}

#[test]
fn test_history_last_parses_all() {
    assert_eq!("all".parse::<HistoryLast>().unwrap(), HistoryLast::All);
    assert_eq!("ALL".parse::<HistoryLast>().unwrap(), HistoryLast::All);
}

#[test]
fn test_history_last_parses_count() {
    assert_eq!("50".parse::<HistoryLast>().unwrap(), HistoryLast::Count(50));
}

#[test]
fn test_history_last_rejects_invalid_value() {
    assert!("foo".parse::<HistoryLast>().is_err());
}

#[test]
fn history_last_has_words_for_what_it_rejects() {
    assert_eq!(
        "-1".parse::<HistoryLast>().unwrap_err(),
        "invalid value '-1': expected a positive integer or 'all'"
    );
    assert_eq!("0".parse::<HistoryLast>().unwrap(), HistoryLast::Count(0));
    assert_eq!("18446744073709551615".parse::<HistoryLast>().unwrap(), HistoryLast::Count(usize::MAX));
    assert!("18446744073709551616".parse::<HistoryLast>().is_err());
    assert!("".parse::<HistoryLast>().is_err());
}

#[test]
fn options_without_a_command_run_the_cleanup() {
    assert!(matches!(startup(None, &args(&["x"])), Startup::OpenMenu));
    assert!(matches!(startup(None, &args(&["x", "--dry-run"])), Startup::Execute(Commands::Run)));
    assert!(matches!(
        startup(Some(Commands::Update { check: true }), &args(&["x"])),
        Startup::Execute(Commands::Update { check: true })
    ));
}

#[test]
fn the_menu_offers_the_commands() {
    let menu = command_menu(false);
    assert_eq!(texts(&menu.heading), vec!["", "  worktree-gc", "  Select a command", ""]);
    assert_eq!(menu.prompt, "Choose a command");
    assert_eq!(
        menu.choices,
        vec![
            "Run cleanup now",
            "Manage schedule",
            "Manage workspaces",
            "Show history",
            "Show config",
            "Cancel",
        ]
    );
    assert_eq!(menu.default, 0);
    let menu = command_menu(true);
    assert_eq!(menu.choices[0], "Run cleanup now (--dry-run)");
    assert_eq!(text(&menu.heading[3]), "  Run mode: dry-run");
    assert!(matches!(interactive_command_menu(0), Some(Commands::Run)));
    assert!(matches!(interactive_command_menu(1), Some(Commands::Schedule { action: None })));
    assert!(matches!(interactive_command_menu(2), Some(Commands::Workspace { action: None })));
    assert!(matches!(
        interactive_command_menu(3),
        Some(Commands::History { last: HistoryLast::Count(10), action: None, repo: None })
    ));
    assert!(matches!(interactive_command_menu(4), Some(Commands::Config { action: None })));
    assert!(interactive_command_menu(5).is_none());
}

#[test]
fn only_a_bare_call_without_a_workspace_asks_for_one() {
    assert!(run_gc_from_command(&bare(None), &args(&["x"])));
    assert!(!run_gc_from_command(&bare(Some("team")), &args(&["x"])));
    assert!(!run_gc_from_command(&bare(None), &args(&["x", "run"])));
}

#[test]
fn config_set_saves_what_was_given() {
    let mut config = RuntimeConfigFile::default();
    let lines =
        set_runtime_config(&bare(None), &args(&["x", "config", "set", "-d", "/builtin"]), &mut config, "/c.json")
            .unwrap();
    assert_eq!(config.dir.as_deref(), Some("/builtin"));
    assert!(config.log_file.is_none());
    assert_eq!(
        texts(&lines),
        vec!["Saved runtime defaults", "  Work dir: /builtin", "  Config: /c.json"]
    );
    let lines = set_runtime_config(
        &bare(None),
        &args(&["x", "--log-file=/builtin/gc.jsonl", "--dir", "/builtin"]),
        &mut config,
        "/c.json",
    )
    .unwrap();
    assert_eq!(lines.len(), 4);
    assert_eq!(config.log_file.as_deref(), Some("/builtin/gc.jsonl"));
}

#[test]
fn config_set_without_a_setting_is_refused() {
    let mut config = saved();
    let e = set_runtime_config(&bare(None), &args(&["x", "config", "set"]), &mut config, "/c.json").unwrap_err();
    assert_eq!(
        e.message(),
        "Specify at least one setting to save, e.g. `worktree-gc config set -d /path/to/repos`"
    );
    assert_eq!(config.dir.as_deref(), Some("/saved"));
}

#[test]
fn config_unset_removes_what_was_saved() {
    let mut config = saved();
    assert_eq!(
        text(&unset_runtime_config(ConfigField::Dir, &mut config)),
        "Removed saved work directory default."
    );
    assert!(config.dir.is_none() && config.log_file.is_some());
    let mut config = saved();
    assert_eq!(
        text(&unset_runtime_config(ConfigField::LogFile, &mut config)),
        "Removed saved log file default."
    );
    assert!(config.dir.is_some() && config.log_file.is_none());
    let mut config = saved();
    assert_eq!(
        text(&unset_runtime_config(ConfigField::All, &mut config)),
        "Removed all saved runtime defaults."
    );
    assert!(config.dir.is_none() && config.log_file.is_none());
}

#[test]
fn config_shows_settings_and_what_is_saved() {
    let mut config = RuntimeConfigFile { dir: Some("/saved".to_string()), ..RuntimeConfigFile::default() };
    config.upsert_workspace(WorkspaceConfig {
        name: "team".to_string(),
        dir: "/team".to_string(),
        log_file: None,
    });
    config.upsert_schedule(ScheduleConfig {
        name: "nightly".to_string(),
        workspace: "team".to_string(),
        hour: 1,
        minute: 5,
    });
    let host = Host {
        platform: Platform::Unsupported,
        home: None,
        exe: Err("gone".to_string()),
        search_path: String::new(),
    };
    let watch = SchedulerWatch { listing: Outcome::NotStarted { cause: String::new() }, units: Vec::new(), legacy_installed: false };
    let mut cli = bare(None);
    cli.dry_run = true;
    let report = show_config(&cli, "/c.json", &config, "/log", &host, &watch);
    assert!(report.error.is_none());
    assert_eq!(
        texts(&report.lines),
        vec![
            "Runtime configuration",
            "  Work dir: /builtin",
            "  Dry run: enabled",
            "  Verbose: disabled",
            "  Log file: /builtin/gc.jsonl",
            "  Config: /c.json",
            "  Saved dir: /saved",
            "  Saved log: (not set)",
            "",
            "Registered workspaces",
            "  team",
            "    Dir: /team",
            "    Log: (global default: /log)",
            "",
            "Registered schedules:",
            "  nightly",
            "    Workspace: team",
            "    Time:      01:05 daily",
            "",
            "Schedule configuration",
            "  Scheduler: unsupported",
            "  Status: not supported on this platform",
        ]
    );
}
