use worktree_gc::cli::Cli;
use worktree_gc::config::{RuntimeConfigFile, ScheduleConfig, WorkspaceConfig};
use worktree_gc::ui::{Line, MenuAction, Navigation, Style};
use worktree_gc::workspace::{
    add_workspace, check_new_workspace, choose_run_workspace, chosen_log_file, default_new_workspace_name,
    given_log_file, interactive_wizard, log_file_prompt, print_registered, print_workspace_summary,
    prompt_choice, prompt_run_if_needed, prompt_workspace_settings, remove_workspace, take_choice,
    use_current_dir, wizard_choice, workspace_log_display, workspace_menu, WizardChoice,
};

fn text(line: &Line) -> String {
    line.spans.iter().map(|span| span.text.as_str()).collect()
}

fn texts(lines: &[Line]) -> Vec<String> {
    lines.iter().map(text).collect()
}

fn workspace(name: &str, dir: &str, log_file: Option<&str>) -> WorkspaceConfig {
    WorkspaceConfig {
        name: name.to_string(),
        dir: dir.to_string(),
        log_file: log_file.map(|log| log.to_string()),
    }
}

fn cli() -> Cli {
    Cli {
        command: None,
        dir: "/repos".to_string(),
        dry_run: false,
        verbose: false,
        log_file: "/gc.jsonl".to_string(),
        workspace: None,
    }
}

fn two() -> RuntimeConfigFile {
    RuntimeConfigFile {
        workspaces: vec![workspace("a", "/a", Some("/a.jsonl")), workspace("b", "/b", None)],
        ..RuntimeConfigFile::default()
    }
}

#[test]
fn test_default_new_workspace_name() {
    let mut config = RuntimeConfigFile::default();
    assert_eq!(default_new_workspace_name(&config), "default");

    config.workspaces.push(WorkspaceConfig {
        name: "default".to_string(),
        dir: "/repos/default".to_string(),
        log_file: None,
    });
    assert_eq!(default_new_workspace_name(&config), "workspace-2");

    config.workspaces.push(WorkspaceConfig {
        name: "workspace-2".to_string(),
        dir: "/repos/second".to_string(),
        log_file: None,
    });
    assert_eq!(default_new_workspace_name(&config), "workspace-3");
}

#[test]
fn test_workspace_log_display_uses_global_default_when_workspace_log_is_absent() {
    let config = RuntimeConfigFile {
        log_file: Some("/global/gc.jsonl".to_string()),
        workspaces: vec![WorkspaceConfig {
            name: "team".to_string(),
            dir: "/repos/team".to_string(),
            log_file: None,
        }],
        ..RuntimeConfigFile::default()
    };

    assert_eq!(
        workspace_log_display(&config.workspaces[0], &config, "/builtin/gc.jsonl"),
        "(global default: /global/gc.jsonl)"
    );
}

#[test]
fn test_workspace_log_display_prefers_workspace_log() {
    let config = RuntimeConfigFile {
        log_file: Some("/global/gc.jsonl".to_string()),
        workspaces: vec![WorkspaceConfig {
            name: "team".to_string(),
            dir: "/repos/team".to_string(),
            log_file: Some("/team/gc.jsonl".to_string()),
        }],
        ..RuntimeConfigFile::default()
    };

    assert_eq!(
        workspace_log_display(&config.workspaces[0], &config, "/builtin/gc.jsonl"),
        "/team/gc.jsonl"
    );
}

#[test]
fn the_built_in_log_is_shown_where_none_is_saved() {
    let config = two();
    assert_eq!(
        workspace_log_display(&config.workspaces[1], &config, "/builtin"),
        "(global default: /builtin)"
    );
}

#[test]
fn a_free_number_in_between_is_offered() {
    let config = RuntimeConfigFile {
        workspaces: vec![
            workspace("default", "/d", None),
            workspace("workspace-3", "/3", None),
            workspace("workspace-2", "/2", None),
            workspace("workspace-5", "/5", None),
        ],
        ..RuntimeConfigFile::default()
    };
    assert_eq!(default_new_workspace_name(&config), "workspace-4");
}

#[test]
fn the_workspace_to_clean_up_is_asked_for_where_there_are_several() {
    assert!(prompt_run_if_needed(&RuntimeConfigFile::default()).is_none());
    let one = RuntimeConfigFile {
        workspaces: vec![workspace("a", "/a", None)],
        ..RuntimeConfigFile::default()
    };
    assert!(prompt_run_if_needed(&one).is_none());
    let menu = prompt_run_if_needed(&two()).unwrap();
    assert_eq!(menu.choices, vec!["a (/a)", "b (/b)"]);
    assert_eq!(menu.prompt, "Select workspace to run cleanup");
    assert_eq!(menu.default, 0);
}

#[test]
fn a_chosen_workspace_sets_the_run() {
    let mut config = two();
    let mut settings = cli();
    let (navigation, lines) = choose_run_workspace(&mut settings, &config, MenuAction::Selected(0));
    assert_eq!(navigation, Navigation::Done);
    assert_eq!(settings.workspace.as_deref(), Some("a"));
    assert_eq!((settings.dir.as_str(), settings.log_file.as_str()), ("/a", "/a.jsonl"));
    assert_eq!(
        texts(&lines),
        vec!["", "  Run cleanup", "  Workspace: a", "  Directory: /a", "  Log file: /a.jsonl", ""]
    );
    let mut settings = cli();
    choose_run_workspace(&mut settings, &config, MenuAction::Selected(1));
    assert_eq!(settings.log_file, "/gc.jsonl");
    config.log_file = Some("/saved.jsonl".to_string());
    let mut settings = cli();
    choose_run_workspace(&mut settings, &config, MenuAction::Selected(1));
    assert_eq!(settings.log_file, "/saved.jsonl");
    let mut settings = cli();
    let (navigation, lines) = choose_run_workspace(&mut settings, &config, MenuAction::Back);
    assert_eq!(navigation, Navigation::Back);
    assert!(lines.is_empty());
    assert_eq!(settings.dir, "/repos");
    assert!(settings.workspace.is_none());
}

#[test]
fn a_workspace_is_saved() {
    let mut config = RuntimeConfigFile::default();
    let lines =
        add_workspace(&mut config, "team", "/team", true, None, "/c.json", "/builtin").unwrap();
    assert_eq!(config.workspaces, vec![workspace("team", "/team", None)]);
    assert_eq!(
        texts(&lines),
        vec![
            "Saved workspace",
            "  Name: team",
            "  Dir: /team",
            "  Log: (global default: /builtin)",
            "  Config: /c.json",
        ]
    );
    assert_eq!(lines[0].spans[1].style, Style::Success);
    add_workspace(&mut config, "team", "/new", true, Some("/l".to_string()), "/c.json", "/builtin").unwrap();
    assert_eq!(config.workspaces, vec![workspace("team", "/new", Some("/l"))]);
}

#[test]
fn a_bad_workspace_is_refused() {
    let mut config = RuntimeConfigFile::default();
    let e = add_workspace(&mut config, "Team", "/no", false, None, "/c", "/b").unwrap_err();
    assert_eq!(e.message(), "workspace name must start with a lowercase letter or digit");
    let e = add_workspace(&mut config, "team", "/no", false, None, "/c", "/b").unwrap_err();
    assert_eq!(e.message(), "Workspace directory does not exist: /no");
    assert!(config.workspaces.is_empty());
    assert!(check_new_workspace("team", "/no", true).is_ok());
}

#[test]
fn a_workspace_in_use_stays() {
    let schedule = |name: &str, workspace: &str| ScheduleConfig {
        name: name.to_string(),
        workspace: workspace.to_string(),
        hour: 0,
        minute: 0,
    };
    let mut config = two();
    config.schedules = vec![schedule("x", "a"), schedule("y", "b"), schedule("z", "a")];
    let e = remove_workspace(&mut config, "a").unwrap_err();
    assert_eq!(
        e.message(),
        "Workspace 'a' is used by schedule(s): x, z. Remove those schedules first."
    );
    assert_eq!(config.workspaces.len(), 2);
    config.remove_schedule("y");
    assert_eq!(text(&remove_workspace(&mut config, "b").unwrap()), "Removed workspace: b");
    assert_eq!(remove_workspace(&mut config, "b").unwrap_err().message(), "Workspace not found: b");
    assert_eq!(
        remove_workspace(&mut config, "").unwrap_err().message(),
        "workspace name cannot be empty"
    );
}

#[test]
fn workspaces_are_shown_and_asked_for() {
    let empty = RuntimeConfigFile::default();
    assert_eq!(texts(&print_registered(&empty, "/l")), vec!["Registered workspaces", "  (none)"]);
    assert_eq!(
        texts(&print_registered(&two(), "/l")),
        vec![
            "Registered workspaces",
            "  a",
            "    Dir: /a",
            "    Log: /a.jsonl",
            "  b",
            "    Dir: /b",
            "    Log: (global default: /l)",
        ]
    );
    assert_eq!(workspace_menu(&two(), "Which?").choices, vec!["a (/a)", "b (/b)"]);
    assert_eq!(interactive_wizard(&empty, "/l").default, 0);
    let wizard = interactive_wizard(&two(), "/l");
    assert_eq!(wizard.default, 1);
    assert_eq!(
        wizard.choices,
        vec!["Add workspace", "Update workspace", "Remove workspace", "List workspaces", "Cancel"]
    );
    assert_eq!(text(&wizard.heading[2]), "  Manage named scan directories");
    assert_eq!(wizard_choice(0), WizardChoice::Add);
    assert_eq!(wizard_choice(1), WizardChoice::Update);
    assert_eq!(wizard_choice(2), WizardChoice::Remove);
    assert_eq!(wizard_choice(3), WizardChoice::List);
    assert_eq!(wizard_choice(9), WizardChoice::Cancel);
    assert_eq!(
        texts(&print_workspace_summary("a", "/a", None, "/l")),
        vec![
            "",
            "  Summary",
            "  Workspace: a",
            "  Directory: /a",
            "  Log file: (global default: /l)",
            "",
        ]
    );
    assert_eq!(
        text(&print_workspace_summary("a", "/a", Some("/x"), "/l")[4]),
        "  Log file: /x"
    );
}

#[test]
fn settings_are_offered_and_read() {
    let config = two();
    assert_eq!(
        prompt_workspace_settings(&cli(), Some(&config.workspaces[0])),
        ("/a".to_string(), "/a.jsonl".to_string())
    );
    assert_eq!(
        prompt_workspace_settings(&cli(), Some(&config.workspaces[1])),
        ("/b".to_string(), String::new())
    );
    assert_eq!(prompt_workspace_settings(&cli(), None), ("/repos".to_string(), String::new()));
    assert_eq!(log_file_prompt("/l"), "Log file (blank/default uses /l)");
    assert_eq!(chosen_log_file("  ".to_string()), None);
    assert_eq!(chosen_log_file(" Default ".to_string()), None);
    assert_eq!(chosen_log_file(" /x ".to_string()), Some(" /x ".to_string()));
    assert_eq!(chosen_log_file("defaults".to_string()), Some("defaults".to_string()));
    let given = vec!["x".to_string(), "--log-file=/gc.jsonl".to_string()];
    assert_eq!(given_log_file(&cli(), &given), Some("/gc.jsonl".to_string()));
    assert_eq!(given_log_file(&cli(), &vec!["x".to_string()]), None);
}

#[test]
fn a_schedule_is_offered_the_workspaces() {
    assert!(prompt_choice(&RuntimeConfigFile::default(), None).is_none());
    let menu = prompt_choice(&two(), Some("b")).unwrap();
    assert_eq!(menu.choices, vec!["a", "b", "Use current --dir as default workspace"]);
    assert_eq!((menu.prompt.as_str(), menu.default), ("Workspace", 1));
    let menu = prompt_choice(&two(), Some("aa")).unwrap();
    assert_eq!(menu.choices, vec!["a", "aa", "b", "Use current --dir as default workspace"]);
    assert_eq!(menu.default, 1);
    let menu = prompt_choice(&two(), None).unwrap();
    assert_eq!(menu.default, 0);
    let mut config = two();
    assert_eq!(take_choice(&cli(), &mut config, &menu.choices, MenuAction::Selected(1)).as_deref(), Some("b"));
    assert_eq!(take_choice(&cli(), &mut config, &menu.choices, MenuAction::Back), None);
    assert_eq!(config.workspaces.len(), 2);
    assert_eq!(
        take_choice(&cli(), &mut config, &menu.choices, MenuAction::Selected(2)).as_deref(),
        Some("default")
    );
    assert_eq!(config.find_workspace("default").map(|w| w.dir.as_str()), Some("/repos"));
    let mut config = RuntimeConfigFile::default();
    assert_eq!(use_current_dir(&cli(), &mut config), "default");
    assert_eq!(config.workspaces, vec![workspace("default", "/repos", Some("/gc.jsonl"))]);
}
