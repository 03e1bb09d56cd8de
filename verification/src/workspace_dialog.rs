//! The conversation about workspaces: what is asked next, and when something is done.
use crate::cli::{Cli, CliModel};
use crate::config::{ConfigModel, RuntimeConfigFile};
use crate::defaults;
use crate::ui;
use crate::ui::{Line, MenuAction, SpanModel, Style};
use crate::workspace;
use crate::workspace::WizardChoice;
use vstd::prelude::*;

verus! {

/// Where the conversation stands: what is to be asked or done.
#[derive(Debug)]
pub enum Talk {
    /// Ask for the name of a new workspace.
    AskName,
    /// Ask which of the workspaces is to be changed.
    PickToUpdate,
    /// Ask which of the workspaces is to be removed.
    PickToRemove,
    /// Ask for the directory and the log file, and offer these.
    AskSettings { name: String, dir: String, log_file: String, updating: bool },
    /// Show the summary and ask for agreement.
    ConfirmSave { name: String, dir: String, log_file: Option<String>, updating: bool },
    /// Ask for agreement to the removal.
    ConfirmRemoval { name: String },
    /// Save the workspace.
    Save { name: String, dir: String, log_file: Option<String> },
    /// Remove the workspace.
    Remove { name: String },
    /// Show the workspaces.
    List,
    /// Nothing more.
    Leave,
}

/// What a [`Talk`] says.
#[verifier::ext_equal]
pub enum TalkModel {
    AskName,
    PickToUpdate,
    PickToRemove,
    AskSettings { name: Seq<char>, dir: Seq<char>, log_file: Seq<char>, updating: bool },
    ConfirmSave { name: Seq<char>, dir: Seq<char>, log_file: Option<Seq<char>>, updating: bool },
    ConfirmRemoval { name: Seq<char> },
    Save { name: Seq<char>, dir: Seq<char>, log_file: Option<Seq<char>> },
    Remove { name: Seq<char> },
    List,
    Leave,
}

impl View for Talk {
    type V = TalkModel;

    open spec fn view(&self) -> TalkModel {
        match self {
            Talk::AskName => TalkModel::AskName,
            Talk::PickToUpdate => TalkModel::PickToUpdate,
            Talk::PickToRemove => TalkModel::PickToRemove,
            Talk::AskSettings { name, dir, log_file, updating } => TalkModel::AskSettings {
                name: name@,
                dir: dir@,
                log_file: log_file@,
                updating: *updating,
            },
            Talk::ConfirmSave { name, dir, log_file, updating } => TalkModel::ConfirmSave {
                name: name@,
                dir: dir@,
                log_file: log_file.deep_view(),
                updating: *updating,
            },
            Talk::ConfirmRemoval { name } => TalkModel::ConfirmRemoval { name: name@ },
            Talk::Save { name, dir, log_file } => TalkModel::Save {
                name: name@,
                dir: dir@,
                log_file: log_file.deep_view(),
            },
            Talk::Remove { name } => TalkModel::Remove { name: name@ },
            Talk::List => TalkModel::List,
            Talk::Leave => TalkModel::Leave,
        }
    }
}

/// What a person says.
#[derive(Debug)]
pub enum Reply {
    Named(String),
    Picked(MenuAction),
    Settings { dir: String, log_file: String },
    Agreed(bool),
}

/// What a [`Reply`] says.
pub enum ReplyModel {
    Named(Seq<char>),
    Picked(MenuAction),
    Settings { dir: Seq<char>, log_file: Seq<char> },
    Agreed(bool),
}

impl View for Reply {
    type V = ReplyModel;

    open spec fn view(&self) -> ReplyModel {
        match self {
            Reply::Named(name) => ReplyModel::Named(name@),
            Reply::Picked(choice) => ReplyModel::Picked(*choice),
            Reply::Settings { dir, log_file } => ReplyModel::Settings { dir: dir@, log_file: log_file@ },
            Reply::Agreed(yes) => ReplyModel::Agreed(*yes),
        }
    }
}

/// How the conversation goes on, with a line that is printed first, if there is one.
pub type Turn = (TalkModel, Option<Seq<SpanModel>>);

/// The conversation goes on without a line.
pub open spec fn quietly(talk: TalkModel) -> Turn {
    (talk, None)
}

/// A line in a muted style.
pub open spec fn aside(text: Seq<char>) -> Seq<SpanModel> {
    ui::one(""@, ui::span(text, Style::Muted))
}

/// How the conversation begins.
pub open spec fn opening(choice: WizardChoice, config: ConfigModel) -> Turn {
    match choice {
        WizardChoice::Add => quietly(TalkModel::AskName),
        WizardChoice::Update => if config.workspaces.len() == 0 {
            (TalkModel::Leave, Some(aside("No registered workspaces to update."@)))
        } else {
            quietly(TalkModel::PickToUpdate)
        },
        WizardChoice::Remove => if config.workspaces.len() == 0 {
            (TalkModel::Leave, Some(aside("No registered workspaces to remove."@)))
        } else {
            quietly(TalkModel::PickToRemove)
        },
        WizardChoice::List => quietly(TalkModel::List),
        WizardChoice::Cancel => (TalkModel::Leave, Some(aside("Cancelled."@))),
    }
}

impl TalkModel {
    /// How the conversation goes on after a reply. One that does not answer the question leaves it as
    /// it is, as does a name that is not valid.
    pub open spec fn after(self, reply: ReplyModel, settings: CliModel, config: ConfigModel) -> Turn {
        match (self, reply) {
            (TalkModel::AskName, ReplyModel::Named(name)) => if defaults::valid_name(name) {
                quietly(TalkModel::AskSettings { name, dir: settings.dir, log_file: ""@, updating: false })
            } else {
                quietly(self)
            },
            (TalkModel::PickToUpdate, ReplyModel::Picked(MenuAction::Selected(i))) => if i < config.workspaces.len() {
                let w = config.workspaces[i as int];
                quietly(
                    TalkModel::AskSettings {
                        name: w.name,
                        dir: w.dir,
                        log_file: match w.log_file {
                            Some(log) => log,
                            None => ""@,
                        },
                        updating: true,
                    },
                )
            } else {
                quietly(self)
            },
            (TalkModel::PickToRemove, ReplyModel::Picked(MenuAction::Selected(i))) => if i < config.workspaces.len() {
                quietly(TalkModel::ConfirmRemoval { name: config.workspaces[i as int].name })
            } else {
                quietly(self)
            },
            (TalkModel::PickToUpdate, ReplyModel::Picked(MenuAction::Back)) => quietly(TalkModel::Leave),
            (TalkModel::PickToRemove, ReplyModel::Picked(MenuAction::Back)) => quietly(TalkModel::Leave),
            (TalkModel::AskSettings { name, updating, .. }, ReplyModel::Settings { dir, log_file }) => quietly(
                TalkModel::ConfirmSave {
                    name,
                    dir,
                    log_file: if workspace::means_general_log(log_file) {
                        None
                    } else {
                        Some(log_file)
                    },
                    updating,
                },
            ),
            (TalkModel::ConfirmSave { name, dir, log_file, updating }, ReplyModel::Agreed(yes)) => if yes {
                quietly(TalkModel::Save { name, dir, log_file })
            } else if updating {
                (TalkModel::Leave, Some(aside("Cancelled."@)))
            } else {
                (TalkModel::Leave, Some(ui::text_line("Cancelled."@)))
            },
            (TalkModel::ConfirmRemoval { name }, ReplyModel::Agreed(yes)) => if yes {
                quietly(TalkModel::Remove { name })
            } else {
                (TalkModel::Leave, Some(aside("Cancelled."@)))
            },
            _ => quietly(self),
        }
    }
}

/// How the conversation goes on, as its model.
pub open spec fn turn_model(r: (Talk, Option<Line>)) -> Turn {
    (
        r.0@,
        match r.1 {
            Some(line) => Some(line@),
            None => None,
        },
    )
}

fn muted_line(text: &str) -> (r: Option<Line>)
    ensures
        r is Some && r->0@ == aside(text@),
{
    Some(Line::one("", ui::muted(text)))
}

/// How the conversation begins.
pub fn begin(choice: WizardChoice, config: &RuntimeConfigFile) -> (r: (Talk, Option<Line>))
    ensures
        turn_model(r) == opening(choice, config@),
{
    let none = config.workspaces.len() == 0;
    match choice {
        WizardChoice::Add => (Talk::AskName, None),
        WizardChoice::Update => if none {
            (Talk::Leave, muted_line("No registered workspaces to update."))
        } else {
            (Talk::PickToUpdate, None)
        },
        WizardChoice::Remove => if none {
            (Talk::Leave, muted_line("No registered workspaces to remove."))
        } else {
            (Talk::PickToRemove, None)
        },
        WizardChoice::List => (Talk::List, None),
        WizardChoice::Cancel => (Talk::Leave, muted_line("Cancelled.")),
    }
}

/// How the conversation goes on after a reply.
pub fn advance(talk: Talk, reply: Reply, cli: &Cli, config: &RuntimeConfigFile) -> (r: (Talk, Option<Line>))
    ensures
        turn_model(r) == talk@.after(reply@, cli@, config@),
{
    match (talk, reply) {
        (Talk::AskName, Reply::Named(name)) => {
            if defaults::validate_registration_name("workspace", name.as_str()).is_err() {
                return (Talk::AskName, None);
            }
            let (dir, log_file) = workspace::prompt_workspace_settings(cli, None);
            (Talk::AskSettings { name, dir, log_file, updating: false }, None)
        },
        (Talk::PickToUpdate, Reply::Picked(choice)) => match choice {
            MenuAction::Back => (Talk::Leave, None),
            MenuAction::Selected(i) => {
                if i >= config.workspaces.len() {
                    return (Talk::PickToUpdate, None);
                }
                let w = &config.workspaces[i];
                assert(config@.workspaces[i as int] == w@);
                let (dir, log_file) = workspace::prompt_workspace_settings(cli, Some(w));
                (Talk::AskSettings { name: w.name.clone(), dir, log_file, updating: true }, None)
            },
        },
        (Talk::PickToRemove, Reply::Picked(choice)) => match choice {
            MenuAction::Back => (Talk::Leave, None),
            MenuAction::Selected(i) => {
                if i >= config.workspaces.len() {
                    return (Talk::PickToRemove, None);
                }
                let w = &config.workspaces[i];
                assert(config@.workspaces[i as int] == w@);
                (Talk::ConfirmRemoval { name: w.name.clone() }, None)
            },
        },
        (Talk::AskSettings { name, dir: _, log_file: _, updating }, Reply::Settings { dir, log_file }) => {
            let log_file = workspace::chosen_log_file(log_file);
            (Talk::ConfirmSave { name, dir, log_file, updating }, None)
        },
        (Talk::ConfirmSave { name, dir, log_file, updating }, Reply::Agreed(yes)) => if yes {
            (Talk::Save { name, dir, log_file }, None)
        } else if updating {
            (Talk::Leave, muted_line("Cancelled."))
        } else {
            (Talk::Leave, Some(Line::text("Cancelled.")))
        },
        (Talk::ConfirmRemoval { name }, Reply::Agreed(yes)) => if yes {
            (Talk::Remove { name }, None)
        } else {
            (Talk::Leave, muted_line("Cancelled."))
        },
        (talk, _) => (talk, None),
    }
}

/// The question for agreement to a workspace.
pub fn save_prompt(updating: bool) -> (r: &'static str)
    ensures
        r@ == (if updating {
            "Update this workspace?"@
        } else {
            "Save this workspace?"@
        }),
{
    if updating {
        "Update this workspace?"
    } else {
        "Save this workspace?"
    }
}

/// The question for agreement to a removal.
pub fn removal_prompt(name: &str) -> (r: String)
    ensures
        r@ == "Remove workspace '"@ + name@ + "'?"@,
{
    let mut prompt = "Remove workspace '".to_owned();
    prompt.append(name);
    prompt.append("'?");
    prompt
}

/// A workspace is saved only as the summary showed it and after agreement; one is removed only after
/// agreement to the removal of that one.
pub proof fn lemma_nothing_without_agreement(talk: TalkModel, reply: ReplyModel, settings: CliModel, config: ConfigModel)
    ensures
        talk.after(reply, settings, config).0 matches TalkModel::Save { name, dir, log_file } ==> talk is Save || reply
            == ReplyModel::Agreed(true) && (talk matches TalkModel::ConfirmSave { name: n, dir: d, log_file: l, .. } && n
            == name && d == dir && l == log_file),
        talk.after(reply, settings, config).0 matches TalkModel::Remove { name } ==> talk is Remove || reply
            == ReplyModel::Agreed(true) && talk == (TalkModel::ConfirmRemoval { name }),
{
}

} // verus!
