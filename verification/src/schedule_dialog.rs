//! The conversation about schedules: what is asked next, and when something is done.
use crate::config::{ConfigModel, RuntimeConfigFile};
use crate::error::{Error, ErrorModel};
use crate::platform;
use crate::schedule;
use crate::schedule::WizardChoice;
use crate::schedule_names;
use crate::ui;
use crate::ui::{Line, SpanModel};
use vstd::prelude::*;

verus! {

/// Where the conversation stands: what is to be asked or done.
#[derive(Debug)]
pub enum Talk {
    /// Ask for the name of a new schedule.
    AskName,
    /// Ask which of the schedules is to be changed.
    PickToUpdate,
    /// Ask which of the schedules is to be removed.
    PickToRemove,
    /// Ask for the workspace of the schedule. `current` is the one that it has.
    AskWorkspace { name: String, current: Option<String>, time: String },
    /// Ask for the time. `time` is the one that is offered.
    AskTime { name: String, workspace: String, time: String, updating: bool },
    /// Show the summary and ask for agreement.
    ConfirmInstall { name: String, workspace: String, hour: u8, minute: u8, updating: bool },
    /// Ask for agreement to the removal.
    ConfirmRemoval { name: String },
    /// Install the schedule and save it.
    Install { name: String, workspace: String, hour: u8, minute: u8 },
    /// Remove the schedule and forget it.
    Remove { name: String },
    /// Show the state of the schedules.
    ShowStatus,
    /// Nothing more.
    Leave,
}

/// What a [`Talk`] says.
#[verifier::ext_equal]
pub enum TalkModel {
    AskName,
    PickToUpdate,
    PickToRemove,
    AskWorkspace { name: Seq<char>, current: Option<Seq<char>>, time: Seq<char> },
    AskTime { name: Seq<char>, workspace: Seq<char>, time: Seq<char>, updating: bool },
    ConfirmInstall { name: Seq<char>, workspace: Seq<char>, hour: u8, minute: u8, updating: bool },
    ConfirmRemoval { name: Seq<char> },
    Install { name: Seq<char>, workspace: Seq<char>, hour: u8, minute: u8 },
    Remove { name: Seq<char> },
    ShowStatus,
    Leave,
}

impl View for Talk {
    type V = TalkModel;

    open spec fn view(&self) -> TalkModel {
        match self {
            Talk::AskName => TalkModel::AskName,
            Talk::PickToUpdate => TalkModel::PickToUpdate,
            Talk::PickToRemove => TalkModel::PickToRemove,
            Talk::AskWorkspace { name, current, time } => TalkModel::AskWorkspace {
                name: name@,
                current: current.deep_view(),
                time: time@,
            },
            Talk::AskTime { name, workspace, time, updating } => TalkModel::AskTime {
                name: name@,
                workspace: workspace@,
                time: time@,
                updating: *updating,
            },
            Talk::ConfirmInstall { name, workspace, hour, minute, updating } => TalkModel::ConfirmInstall {
                name: name@,
                workspace: workspace@,
                hour: *hour,
                minute: *minute,
                updating: *updating,
            },
            Talk::ConfirmRemoval { name } => TalkModel::ConfirmRemoval { name: name@ },
            Talk::Install { name, workspace, hour, minute } => TalkModel::Install {
                name: name@,
                workspace: workspace@,
                hour: *hour,
                minute: *minute,
            },
            Talk::Remove { name } => TalkModel::Remove { name: name@ },
            Talk::ShowStatus => TalkModel::ShowStatus,
            Talk::Leave => TalkModel::Leave,
        }
    }
}

/// What a person says.
#[derive(Debug)]
pub enum Reply {
    Named(String),
    Picked(usize),
    /// The workspace that was chosen, or nothing where the person went back.
    Workspace(Option<String>),
    Time(String),
    Agreed(bool),
}

/// What a [`Reply`] says.
pub enum ReplyModel {
    Named(Seq<char>),
    Picked(usize),
    Workspace(Option<Seq<char>>),
    Time(Seq<char>),
    Agreed(bool),
}

impl View for Reply {
    type V = ReplyModel;

    open spec fn view(&self) -> ReplyModel {
        match self {
            Reply::Named(name) => ReplyModel::Named(name@),
            Reply::Picked(i) => ReplyModel::Picked(*i),
            Reply::Workspace(workspace) => ReplyModel::Workspace(workspace.deep_view()),
            Reply::Time(time) => ReplyModel::Time(time@),
            Reply::Agreed(yes) => ReplyModel::Agreed(*yes),
        }
    }
}

/// How the conversation goes on, with a line that is printed first, if there is one.
pub type Turn = (TalkModel, Option<Seq<SpanModel>>);

/// The conversation goes on without a line.
pub open spec fn quietly(talk: TalkModel) -> Turn {
    (talk, None)
}

/// The conversation ends with the word that nothing was done.
pub open spec fn cancelled() -> Turn {
    (TalkModel::Leave, Some(ui::text_line("Cancelled."@)))
}

/// How the conversation begins. Where there is no schedule to change, a new one is made.
pub open spec fn opening(choice: WizardChoice, config: ConfigModel) -> Turn {
    match choice {
        WizardChoice::Add => quietly(TalkModel::AskName),
        WizardChoice::Update => if config.schedules.len() == 0 {
            (TalkModel::AskName, Some(ui::text_line("No registered schedules to update."@)))
        } else {
            quietly(TalkModel::PickToUpdate)
        },
        WizardChoice::Remove => if config.schedules.len() == 0 {
            (TalkModel::Leave, Some(ui::text_line("No registered schedules to remove."@)))
        } else {
            quietly(TalkModel::PickToRemove)
        },
        WizardChoice::Status => quietly(TalkModel::ShowStatus),
        WizardChoice::Cancel => cancelled(),
    }
}

impl TalkModel {
    /// How the conversation goes on after a reply, or the complaint that ends it. A reply that does
    /// not answer the question leaves it as it is, as do a name and a time that are not valid.
    pub open spec fn after(self, reply: ReplyModel, config: ConfigModel) -> Result<Turn, ErrorModel> {
        match (self, reply) {
            (TalkModel::AskName, ReplyModel::Named(name)) => if schedule_names::problem(name) is Some {
                Ok(quietly(self))
            } else if config.has_schedule(name) {
                Err(ErrorModel::plain("Schedule already exists: "@ + name))
            } else {
                Ok(quietly(TalkModel::AskWorkspace { name, current: None, time: "09:00"@ }))
            },
            (TalkModel::PickToUpdate, ReplyModel::Picked(i)) => if i < config.schedules.len() {
                let s = config.schedules[i as int];
                Ok(
                    quietly(
                        TalkModel::AskWorkspace {
                            name: s.name,
                            current: Some(s.workspace),
                            time: platform::clock(s.hour as nat, s.minute as nat),
                        },
                    ),
                )
            } else {
                Ok(quietly(self))
            },
            (TalkModel::PickToRemove, ReplyModel::Picked(i)) => if i < config.schedules.len() {
                Ok(quietly(TalkModel::ConfirmRemoval { name: config.schedules[i as int].name }))
            } else {
                Ok(quietly(self))
            },
            (TalkModel::AskWorkspace { name, current, time }, ReplyModel::Workspace(workspace)) => match workspace {
                Some(workspace) => Ok(
                    quietly(TalkModel::AskTime { name, workspace, time, updating: current is Some }),
                ),
                None => Ok(quietly(TalkModel::Leave)),
            },
            (TalkModel::AskTime { name, workspace, updating, .. }, ReplyModel::Time(time)) => match schedule::daily_time(
                time,
            ) {
                Some((hour, minute)) => Ok(
                    quietly(TalkModel::ConfirmInstall { name, workspace, hour, minute, updating }),
                ),
                None => Ok(quietly(self)),
            },
            (TalkModel::ConfirmInstall { name, workspace, hour, minute, .. }, ReplyModel::Agreed(yes)) => if yes {
                Ok(quietly(TalkModel::Install { name, workspace, hour, minute }))
            } else {
                Ok(cancelled())
            },
            (TalkModel::ConfirmRemoval { name }, ReplyModel::Agreed(yes)) => if yes {
                Ok(quietly(TalkModel::Remove { name }))
            } else {
                Ok(cancelled())
            },
            _ => Ok(quietly(self)),
        }
    }
}

/// How the conversation goes on, as its model.
pub open spec fn turn_model(r: (Talk, Option<Line>)) -> Turn {
    (
        r.0@,
        match r.1 {
            Some(line) => Some(line@),
            None => None,
        },
    )
}

/// How the conversation goes on or is refused.
pub open spec fn result_model(r: Result<(Talk, Option<Line>), Error>) -> Result<Turn, ErrorModel> {
    match r {
        Ok(turn) => Ok(turn_model(turn)),
        Err(e) => Err(e@),
    }
}

/// How the conversation begins.
pub fn begin(choice: WizardChoice, config: &RuntimeConfigFile) -> (r: (Talk, Option<Line>))
    ensures
        turn_model(r) == opening(choice, config@),
{
    let none = config.schedules.len() == 0;
    match choice {
        WizardChoice::Add => (Talk::AskName, None),
        WizardChoice::Update => if none {
            (Talk::AskName, Some(Line::text("No registered schedules to update.")))
        } else {
            (Talk::PickToUpdate, None)
        },
        WizardChoice::Remove => if none {
            (Talk::Leave, Some(Line::text("No registered schedules to remove.")))
        } else {
            (Talk::PickToRemove, None)
        },
        WizardChoice::Status => (Talk::ShowStatus, None),
        WizardChoice::Cancel => (Talk::Leave, Some(Line::text("Cancelled."))),
    }
}

/// How the conversation goes on after a reply.
pub fn advance(talk: Talk, reply: Reply, config: &RuntimeConfigFile) -> (r: Result<(Talk, Option<Line>), Error>)
    ensures
        result_model(r) == talk@.after(reply@, config@),
{
    match (talk, reply) {
        (Talk::AskName, Reply::Named(name)) => {
            if schedule_names::validate_schedule_name(name.as_str()).is_err() {
                return Ok((Talk::AskName, None));
            }
            match schedule::check_new_schedule(config, name.as_str()) {
                Ok(()) => Ok((Talk::AskWorkspace { name, current: None, time: "09:00".to_owned() }, None)),
                Err(e) => Err(e),
            }
        },
        (Talk::PickToUpdate, Reply::Picked(i)) => {
            if i >= config.schedules.len() {
                return Ok((Talk::PickToUpdate, None));
            }
            let s = &config.schedules[i];
            assert(config@.schedules[i as int] == s@);
            let talk = Talk::AskWorkspace {
                name: s.name.clone(),
                current: Some(s.workspace.clone()),
                time: platform::clock_text(s.hour as u32, s.minute as u32),
            };
            Ok((talk, None))
        },
        (Talk::PickToRemove, Reply::Picked(i)) => {
            if i >= config.schedules.len() {
                return Ok((Talk::PickToRemove, None));
            }
            let s = &config.schedules[i];
            assert(config@.schedules[i as int] == s@);
            Ok((Talk::ConfirmRemoval { name: s.name.clone() }, None))
        },
        (Talk::AskWorkspace { name, current, time }, Reply::Workspace(workspace)) => match workspace {
            Some(workspace) => {
                let updating = current.is_some();
                Ok((Talk::AskTime { name, workspace, time, updating }, None))
            },
            None => Ok((Talk::Leave, None)),
        },
        (Talk::AskTime { name, workspace, time, updating }, Reply::Time(answer)) => {
            match schedule::parse_daily_time(answer.as_str()) {
                Some((hour, minute)) => Ok(
                    (Talk::ConfirmInstall { name, workspace, hour, minute, updating }, None),
                ),
                None => Ok((Talk::AskTime { name, workspace, time, updating }, None)),
            }
        },
        (Talk::ConfirmInstall { name, workspace, hour, minute, updating: _ }, Reply::Agreed(yes)) => if yes {
            Ok((Talk::Install { name, workspace, hour, minute }, None))
        } else {
            Ok((Talk::Leave, Some(Line::text("Cancelled."))))
        },
        (Talk::ConfirmRemoval { name }, Reply::Agreed(yes)) => if yes {
            Ok((Talk::Remove { name }, None))
        } else {
            Ok((Talk::Leave, Some(Line::text("Cancelled."))))
        },
        (talk, _) => Ok((talk, None)),
    }
}

/// The question for agreement to an installation.
pub fn install_prompt(updating: bool) -> (r: &'static str)
    ensures
        r@ == (if updating {
            "Update this schedule?"@
        } else {
            "Install this schedule?"@
        }),
{
    if updating {
        "Update this schedule?"
    } else {
        "Install this schedule?"
    }
}

/// A schedule is installed only as the summary showed it and after agreement, at a time of day; one
/// is removed only after agreement to the removal of that one.
pub proof fn lemma_nothing_without_agreement(talk: TalkModel, reply: ReplyModel, config: ConfigModel)
    ensures
        talk.after(reply, config) matches Ok((TalkModel::Install { name, workspace, hour, minute }, _)) ==> talk
            is Install || reply == ReplyModel::Agreed(true) && (talk matches TalkModel::ConfirmInstall {
            name: n,
            workspace: w,
            hour: h,
            minute: m,
            ..
        } && n == name && w == workspace && h == hour && m == minute),
        talk.after(reply, config) matches Ok((TalkModel::Remove { name }, _)) ==> talk is Remove || reply
            == ReplyModel::Agreed(true) && talk == (TalkModel::ConfirmRemoval { name }),
{
}

impl TalkModel {
    /// What is shown for agreement and what is installed is a time of day.
    pub open spec fn sound(self) -> bool {
        match self {
            TalkModel::ConfirmInstall { hour, minute, .. } => schedule::is_daily_time(hour as nat, minute as nat),
            TalkModel::Install { hour, minute, .. } => schedule::is_daily_time(hour as nat, minute as nat),
            _ => true,
        }
    }
}

/// However the conversation goes, it shows and installs times of day only.
pub proof fn lemma_conversation_stays_sound(
    choice: WizardChoice,
    talk: TalkModel,
    reply: ReplyModel,
    config: ConfigModel,
)
    ensures
        opening(choice, config).0.sound(),
        talk.sound() ==> (talk.after(reply, config) matches Ok((next, _)) ==> next.sound()),
{
}

/// A name that was asked for is valid and new.
pub proof fn lemma_asked_name_is_new(talk: TalkModel, reply: ReplyModel, config: ConfigModel)
    requires
        talk is AskName,
    ensures
        talk.after(reply, config) matches Ok((TalkModel::AskWorkspace { name, current, .. }, _)) ==> current is None
            && schedule_names::problem(name) is None && !config.has_schedule(name),
{
}

} // verus!
