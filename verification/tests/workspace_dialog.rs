use worktree_gc::cli::Cli;
use worktree_gc::config::{RuntimeConfigFile, WorkspaceConfig};
use worktree_gc::ui::{Line, MenuAction, Style};
use worktree_gc::workspace::WizardChoice;
use worktree_gc::workspace_dialog::{advance, begin, removal_prompt, save_prompt, Reply, Talk};

fn text(line: Option<Line>) -> Option<String> {
    line.map(|line| line.spans.iter().map(|span| span.text.as_str()).collect())
}

fn is_muted(line: &Option<Line>) -> bool {
    matches!(line, Some(line) if line.spans.iter().any(|span| matches!(span.style, Style::Muted)))
}

fn cli() -> Cli {
    Cli {
        command: None,
        dir: "/repos".to_string(),
        dry_run: false,
        verbose: false,
        log_file: "/gc.jsonl".to_string(),
        workspace: None,
    }
}

fn filled() -> RuntimeConfigFile {
    RuntimeConfigFile {
        workspaces: vec![
            WorkspaceConfig {
                name: "a".to_string(),
                dir: "/a".to_string(),
                log_file: Some("/a.jsonl".to_string()),
            },
            WorkspaceConfig { name: "b".to_string(), dir: "/b".to_string(), log_file: None },
        ],
        ..RuntimeConfigFile::default()
    }
}

fn tell(talk: Talk, reply: Reply, config: &RuntimeConfigFile) -> Talk {
    let (next, note) = advance(talk, reply, &cli(), config);
    assert!(note.is_none());
    next
}

#[test]
fn a_workspace_is_added_step_by_step() {
    let config = filled();
    let (talk, note) = begin(WizardChoice::Add, &config);
    assert!(note.is_none());
    let talk = tell(talk, Reply::Named("-x".to_string()), &config);
    assert!(matches!(talk, Talk::AskName));
    let talk = tell(talk, Reply::Named("team".to_string()), &config);
    assert_eq!(
        format!("{talk:?}"),
        "AskSettings { name: \"team\", dir: \"/repos\", log_file: \"\", updating: false }"
    );
    let settings = Reply::Settings { dir: "/team".to_string(), log_file: " Default ".to_string() };
    let talk = tell(talk, settings, &config);
    let talk = tell(talk, Reply::Agreed(true), &config);
    assert_eq!(format!("{talk:?}"), "Save { name: \"team\", dir: \"/team\", log_file: None }");
}

#[test]
fn a_workspace_is_updated_from_its_own_values() {
    let config = filled();
    let (talk, _) = begin(WizardChoice::Update, &config);
    let talk = tell(talk, Reply::Picked(MenuAction::Selected(2)), &config);
    assert!(matches!(talk, Talk::PickToUpdate));
    let talk = tell(talk, Reply::Picked(MenuAction::Selected(0)), &config);
    assert_eq!(
        format!("{talk:?}"),
        "AskSettings { name: \"a\", dir: \"/a\", log_file: \"/a.jsonl\", updating: true }"
    );
    let settings = Reply::Settings { dir: "/c".to_string(), log_file: "/c.jsonl".to_string() };
    let talk = tell(talk, settings, &config);
    assert_eq!(
        format!("{talk:?}"),
        "ConfirmSave { name: \"a\", dir: \"/c\", log_file: Some(\"/c.jsonl\"), updating: true }"
    );
    let (talk, note) = advance(talk, Reply::Agreed(false), &cli(), &config);
    assert!(matches!(talk, Talk::Leave));
    assert!(is_muted(&note));
    assert_eq!(save_prompt(true), "Update this workspace?");
    assert_eq!(save_prompt(false), "Save this workspace?");
}

#[test]
fn a_refused_new_workspace_is_told_plainly() {
    let refused = Talk::ConfirmSave {
        name: "team".to_string(),
        dir: "/team".to_string(),
        log_file: None,
        updating: false,
    };
    let (talk, note) = advance(refused, Reply::Agreed(false), &cli(), &filled());
    assert!(matches!(talk, Talk::Leave));
    assert!(!is_muted(&note));
    assert_eq!(text(note).as_deref(), Some("Cancelled."));
}

#[test]
fn a_workspace_is_removed_after_agreement() {
    let config = filled();
    let (talk, _) = begin(WizardChoice::Remove, &config);
    let talk = tell(talk, Reply::Picked(MenuAction::Selected(1)), &config);
    let talk = tell(talk, Reply::Agreed(true), &config);
    assert!(matches!(talk, Talk::Remove { name } if name == "b"));
    let left = tell(Talk::PickToRemove, Reply::Picked(MenuAction::Back), &config);
    assert!(matches!(left, Talk::Leave));
    let refused = Talk::ConfirmRemoval { name: "b".to_string() };
    let (_, note) = advance(refused, Reply::Agreed(false), &cli(), &config);
    assert!(is_muted(&note));
    assert_eq!(removal_prompt("b"), "Remove workspace 'b'?");
}

#[test]
fn without_workspaces_there_is_nothing_to_change() {
    let config = RuntimeConfigFile::default();
    let (talk, note) = begin(WizardChoice::Update, &config);
    assert!(matches!(talk, Talk::Leave));
    assert_eq!(text(note).as_deref(), Some("No registered workspaces to update."));
    let (talk, note) = begin(WizardChoice::Remove, &config);
    assert!(matches!(talk, Talk::Leave));
    assert_eq!(text(note).as_deref(), Some("No registered workspaces to remove."));
    let (talk, _) = begin(WizardChoice::List, &config);
    assert!(matches!(talk, Talk::List));
    let (talk, note) = begin(WizardChoice::Cancel, &config);
    assert!(matches!(talk, Talk::Leave));
    assert!(is_muted(&note));
}
