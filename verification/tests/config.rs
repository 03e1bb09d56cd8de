use worktree_gc::config::{
    load_runtime_config, runtime_config_path, save_runtime_config, RuntimeConfigFile, Save, SavedConfig,
    ScheduleConfig, WorkspaceConfig,
};

fn workspace(name: &str, dir: &str, log_file: Option<&str>) -> WorkspaceConfig {
    WorkspaceConfig {
        name: name.to_string(),
        dir: dir.to_string(),
        log_file: log_file.map(|log| log.to_string()),
    }
}

fn schedule(name: &str, workspace: &str, hour: u8, minute: u8) -> ScheduleConfig {
    ScheduleConfig { name: name.to_string(), workspace: workspace.to_string(), hour, minute }
}

#[test]
fn test_upsert_workspace_sorts_and_replaces_by_name() {
    let mut config = RuntimeConfigFile::default();

    config.upsert_workspace(WorkspaceConfig {
        name: "zeta".to_string(),
        dir: "/repos/zeta".to_string(),
        log_file: None,
    });
    config.upsert_workspace(WorkspaceConfig {
        name: "alpha".to_string(),
        dir: "/repos/alpha".to_string(),
        log_file: Some("/logs/alpha.jsonl".to_string()),
    });
    config.upsert_workspace(WorkspaceConfig {
        name: "zeta".to_string(),
        dir: "/repos/zeta-new".to_string(),
        log_file: Some("/logs/zeta.jsonl".to_string()),
    });

    assert_eq!(
        config.workspaces.iter().map(|workspace| workspace.name.as_str()).collect::<Vec<_>>(),
        vec!["alpha", "zeta"]
    );
    assert_eq!(
        config
            .find_workspace("zeta")
            .map(|workspace| (workspace.dir.as_str(), workspace.log_file.as_deref())),
        Some(("/repos/zeta-new", Some("/logs/zeta.jsonl")))
    );
}

#[test]
fn test_remove_workspace_reports_whether_entry_existed() {
    let mut config = RuntimeConfigFile {
        workspaces: vec![WorkspaceConfig {
            name: "team".to_string(),
            dir: "/repos/team".to_string(),
            log_file: None,
        }],
        ..RuntimeConfigFile::default()
    };

    assert!(config.remove_workspace("team"));
    assert!(!config.remove_workspace("team"));
    assert!(config.workspaces.is_empty());
}

#[test]
fn test_upsert_schedule_sorts_and_replaces_by_name() {
    let mut config = RuntimeConfigFile::default();

    config.upsert_schedule(ScheduleConfig {
        name: "nightly".to_string(),
        workspace: "team".to_string(),
        hour: 23,
        minute: 30,
    });
    config.upsert_schedule(ScheduleConfig {
        name: "daily".to_string(),
        workspace: "personal".to_string(),
        hour: 9,
        minute: 0,
    });
    config.upsert_schedule(ScheduleConfig {
        name: "nightly".to_string(),
        workspace: "team".to_string(),
        hour: 1,
        minute: 15,
    });

    assert_eq!(
        config.schedules.iter().map(|schedule| schedule.name.as_str()).collect::<Vec<_>>(),
        vec!["daily", "nightly"]
    );
    assert_eq!(
        config
            .schedules
            .iter()
            .find(|schedule| schedule.name == "nightly")
            .map(|schedule| (schedule.hour, schedule.minute)),
        Some((1, 15))
    );
}

#[test]
fn test_remove_schedule_reports_whether_entry_existed() {
    let mut config = RuntimeConfigFile {
        schedules: vec![ScheduleConfig {
            name: "default".to_string(),
            workspace: "team".to_string(),
            hour: 9,
            minute: 0,
        }],
        ..RuntimeConfigFile::default()
    };

    assert!(config.remove_schedule("default"));
    assert!(!config.remove_schedule("default"));
    assert!(config.schedules.is_empty());
}

#[test]
fn find_takes_the_first_of_two_workspaces_of_one_name() {
    let config = RuntimeConfigFile {
        workspaces: vec![workspace("a", "/first", None), workspace("a", "/second", None)],
        ..RuntimeConfigFile::default()
    };
    assert_eq!(config.find_workspace("a").map(|w| w.dir.as_str()), Some("/first"));
    assert!(config.find_workspace("b").is_none());
}

#[test]
fn upsert_adds_at_most_one() {
    let mut config = RuntimeConfigFile::default();
    config.upsert_workspace(workspace("b", "/b", None));
    config.upsert_workspace(workspace("a", "/a", None));
    assert_eq!(config.workspaces.len(), 2);
    config.upsert_workspace(workspace("b", "/new", None));
    assert_eq!(config.workspaces.len(), 2);
}

#[test]
fn upsert_replaces_in_place_and_does_not_sort() {
    let mut config = RuntimeConfigFile {
        workspaces: vec![workspace("z", "/z", None), workspace("a", "/a", None)],
        ..RuntimeConfigFile::default()
    };
    config.upsert_workspace(workspace("z", "/new", None));
    assert_eq!(
        config.workspaces.iter().map(|w| (w.name.as_str(), w.dir.as_str())).collect::<Vec<_>>(),
        vec![("z", "/new"), ("a", "/a")]
    );
    config.upsert_workspace(workspace("m", "/m", None));
    assert_eq!(
        config.workspaces.iter().map(|w| w.name.as_str()).collect::<Vec<_>>(),
        vec!["a", "m", "z"]
    );
}

#[test]
fn removal_keeps_the_others_in_order() {
    let mut config = RuntimeConfigFile {
        schedules: vec![schedule("a", "w", 1, 2), schedule("b", "w", 3, 4), schedule("c", "w", 5, 6)],
        ..RuntimeConfigFile::default()
    };
    assert!(config.remove_schedule("b"));
    assert_eq!(config.schedules, vec![schedule("a", "w", 1, 2), schedule("c", "w", 5, 6)]);
}

#[test]
fn config_path_lies_under_the_config_directory() {
    assert_eq!(
        runtime_config_path(Some("/home/u/.config")).unwrap(),
        "/home/u/.config/worktree-gc/config.json"
    );
    assert_eq!(runtime_config_path(None).unwrap_err().message(), "Cannot determine config directory");
}

#[test]
fn empty_configuration_has_no_file() {
    let empty = RuntimeConfigFile::default();
    match save_runtime_config(Some("/c"), &empty).unwrap() {
        Save::Remove { path, failure } => {
            assert_eq!(path, "/c/worktree-gc/config.json");
            assert_eq!(failure, "Cannot remove /c/worktree-gc/config.json");
        }
        other => panic!("{other:?}"),
    }
    assert_eq!(
        save_runtime_config(None, &empty).unwrap_err().message(),
        "Cannot determine config directory"
    );
}

#[test]
fn any_setting_makes_a_file() {
    let with_dir = RuntimeConfigFile { dir: Some("/r".to_string()), ..RuntimeConfigFile::default() };
    let with_log = RuntimeConfigFile { log_file: Some("/l".to_string()), ..RuntimeConfigFile::default() };
    let with_workspace =
        RuntimeConfigFile { workspaces: vec![workspace("a", "/a", None)], ..RuntimeConfigFile::default() };
    let with_schedule =
        RuntimeConfigFile { schedules: vec![schedule("a", "w", 0, 0)], ..RuntimeConfigFile::default() };
    for config in [&with_dir, &with_log, &with_workspace, &with_schedule] {
        match save_runtime_config(Some("/c"), config).unwrap() {
            Save::Write { dir, dir_failure, path, failure } => {
                assert_eq!(dir, "/c/worktree-gc");
                assert_eq!(dir_failure, "Cannot create /c/worktree-gc");
                assert_eq!(path, "/c/worktree-gc/config.json");
                assert_eq!(failure, "Cannot write /c/worktree-gc/config.json");
            }
            other => panic!("{other:?}"),
        }
    }
}

#[test]
fn what_is_saved_is_loaded_again() {
    let filled = || RuntimeConfigFile {
        dir: Some("/r".to_string()),
        log_file: None,
        workspaces: vec![workspace("b", "/b", None), workspace("a", "/a", Some("/a.jsonl"))],
        schedules: vec![schedule("s", "b", 3, 5)],
    };
    for (config, same) in [(filled(), filled()), (RuntimeConfigFile::default(), RuntimeConfigFile::default())] {
        let left = match save_runtime_config(Some("/c"), &config).unwrap() {
            Save::Remove { path, .. } => {
                assert_eq!(path, runtime_config_path(Some("/c")).unwrap());
                SavedConfig::Absent
            }
            Save::Write { path, .. } => {
                assert_eq!(path, runtime_config_path(Some("/c")).unwrap());
                SavedConfig::Parsed(config)
            }
        };
        let loaded = load_runtime_config("/c/worktree-gc/config.json", left).unwrap();
        assert_eq!(format!("{loaded:?}"), format!("{same:?}"));
    }
}

#[test]
fn loading_reports_what_is_wrong_with_the_file() {
    let absent = load_runtime_config("/c.json", SavedConfig::Absent).unwrap();
    assert!(absent.dir.is_none() && absent.log_file.is_none());
    assert!(absent.workspaces.is_empty() && absent.schedules.is_empty());
    let e = load_runtime_config("/c.json", SavedConfig::Unreadable("denied".to_string())).unwrap_err();
    assert_eq!((e.message(), e.cause()), ("Cannot read /c.json", Some("denied")));
    let e = load_runtime_config("/c.json", SavedConfig::Unparsable("line 3".to_string())).unwrap_err();
    assert_eq!((e.message(), e.cause()), ("Cannot parse /c.json", Some("line 3")));
    assert_eq!(runtime_config_path(None).unwrap_err().cause(), None);
    let saved = RuntimeConfigFile { dir: Some("/r".to_string()), ..RuntimeConfigFile::default() };
    assert_eq!(
        load_runtime_config("/c.json", SavedConfig::Parsed(saved)).unwrap().dir.as_deref(),
        Some("/r")
    );
}
