use worktree_gc::config::{RuntimeConfigFile, ScheduleConfig, WorkspaceConfig};
use worktree_gc::schedule::WizardChoice;
use worktree_gc::schedule_dialog::{advance, begin, install_prompt, Reply, Talk};
use worktree_gc::ui::Line;

fn text(line: Option<Line>) -> Option<String> {
    line.map(|line| line.spans.iter().map(|span| span.text.as_str()).collect())
}

fn filled() -> RuntimeConfigFile {
    RuntimeConfigFile {
        workspaces: vec![
            WorkspaceConfig {
                name: "a".to_string(),
                dir: "/a".to_string(),
                log_file: Some("/a.jsonl".to_string()),
            },
            WorkspaceConfig { name: "b".to_string(), dir: "/b".to_string(), log_file: None },
        ],
        schedules: vec![ScheduleConfig {
            name: "nightly".to_string(),
            workspace: "a".to_string(),
            hour: 3,
            minute: 5,
        }],
        ..RuntimeConfigFile::default()
    }
}

fn say(talk: Talk, reply: Reply, config: &RuntimeConfigFile) -> Talk {
    let (next, note) = advance(talk, reply, config).unwrap();
    assert!(note.is_none());
    next
}

#[test]
fn a_schedule_is_added_step_by_step() {
    let config = filled();
    let (talk, note) = begin(WizardChoice::Add, &config);
    assert!(note.is_none());
    let talk = say(talk, Reply::Named("Not Valid".to_string()), &config);
    assert!(matches!(talk, Talk::AskName));
    let talk = say(talk, Reply::Named("weekly".to_string()), &config);
    assert_eq!(
        format!("{talk:?}"),
        "AskWorkspace { name: \"weekly\", current: None, time: \"09:00\" }"
    );
    let talk = say(talk, Reply::Workspace(Some("b".to_string())), &config);
    let talk = say(talk, Reply::Time("25:00".to_string()), &config);
    assert_eq!(
        format!("{talk:?}"),
        "AskTime { name: \"weekly\", workspace: \"b\", time: \"09:00\", updating: false }"
    );
    let talk = say(talk, Reply::Time("18:30".to_string()), &config);
    assert!(matches!(talk, Talk::ConfirmInstall { hour: 18, minute: 30, updating: false, .. }));
    let talk = say(talk, Reply::Agreed(true), &config);
    assert_eq!(
        format!("{talk:?}"),
        "Install { name: \"weekly\", workspace: \"b\", hour: 18, minute: 30 }"
    );
    let talk = say(talk, Reply::Agreed(false), &config);
    assert!(matches!(talk, Talk::Install { .. }));
}

#[test]
fn a_schedule_that_exists_is_not_added() {
    let answer =
        advance(Talk::AskName, Reply::Named("nightly".to_string()), &filled());
    assert_eq!(answer.unwrap_err().message(), "Schedule already exists: nightly");
}

#[test]
fn a_schedule_is_updated_from_its_own_values() {
    let config = filled();
    let (talk, note) = begin(WizardChoice::Update, &config);
    assert!(note.is_none());
    let talk = say(talk, Reply::Picked(1), &config);
    assert!(matches!(talk, Talk::PickToUpdate));
    let talk = say(talk, Reply::Picked(0), &config);
    assert_eq!(
        format!("{talk:?}"),
        "AskWorkspace { name: \"nightly\", current: Some(\"a\"), time: \"03:05\" }"
    );
    let left = say(talk, Reply::Workspace(None), &config);
    assert!(matches!(left, Talk::Leave));
    assert_eq!(install_prompt(true), "Update this schedule?");
    assert_eq!(install_prompt(false), "Install this schedule?");
}

#[test]
fn without_schedules_an_update_adds_one() {
    let config = RuntimeConfigFile::default();
    let (talk, note) = begin(WizardChoice::Update, &config);
    assert!(matches!(talk, Talk::AskName));
    assert_eq!(text(note).as_deref(), Some("No registered schedules to update."));
    let (talk, note) = begin(WizardChoice::Remove, &config);
    assert!(matches!(talk, Talk::Leave));
    assert_eq!(text(note).as_deref(), Some("No registered schedules to remove."));
    let (talk, note) = begin(WizardChoice::Status, &config);
    assert!(matches!(talk, Talk::ShowStatus));
    assert!(note.is_none());
    let (talk, note) = begin(WizardChoice::Cancel, &config);
    assert!(matches!(talk, Talk::Leave));
    assert_eq!(text(note).as_deref(), Some("Cancelled."));
}

#[test]
fn a_schedule_is_removed_after_agreement() {
    let config = filled();
    let (talk, _) = begin(WizardChoice::Remove, &config);
    let talk = say(talk, Reply::Picked(0), &config);
    let talk = say(talk, Reply::Agreed(true), &config);
    assert!(matches!(talk, Talk::Remove { name } if name == "nightly"));
    let refused = Talk::ConfirmRemoval { name: "nightly".to_string() };
    let (talk, note) = advance(refused, Reply::Agreed(false), &config).unwrap();
    assert!(matches!(talk, Talk::Leave));
    assert_eq!(text(note).as_deref(), Some("Cancelled."));
}
