//! Conversations: what comes of one that is held to its end.
use crate::cli::CliModel;
use crate::config::{ConfigModel, WorkspaceModel};
use crate::error::ErrorModel;
use crate::laws::registry;
use crate::laws::schedules;
use crate::laws::texts;
use crate::platform;
use crate::schedule;
use crate::schedule_dialog;
use crate::scheduler;
use crate::scheduler::{Answer, Question, WizardMove};
use crate::ui;
use crate::ui::{MenuAction, Style};
use crate::workspace;
use crate::workspace_dialog;
use vstd::prelude::*;

verus! {

/// Where a conversation about schedules stands after the replies.
pub open spec fn about_schedules(
    talk: schedule_dialog::TalkModel,
    replies: Seq<schedule_dialog::ReplyModel>,
    config: ConfigModel,
) -> Result<schedule_dialog::TalkModel, ErrorModel>
    decreases replies.len(),
{
    if replies.len() == 0 {
        Ok(talk)
    } else {
        match talk.after(replies[0], config) {
            Ok(turn) => about_schedules(turn.0, replies.drop_first(), config),
            Err(e) => Err(e),
        }
    }
}

proof fn lemma_schedule_turn(
    talk: schedule_dialog::TalkModel,
    reply: schedule_dialog::ReplyModel,
    replies: Seq<schedule_dialog::ReplyModel>,
    config: ConfigModel,
)
    ensures
        about_schedules(talk, seq![reply] + replies, config) == (match talk.after(reply, config) {
            Ok(turn) => about_schedules(turn.0, replies, config),
            Err(e) => Err(e),
        }),
{
    assert((seq![reply] + replies).drop_first() =~= replies);
}

/// A new schedule with a good and free name is installed with the name, the workspace and the time
/// that were given, where its installation was agreed to, and is not installed where it was not.
pub proof fn lemma_new_schedule_is_installed(
    config: ConfigModel,
    name: Seq<char>,
    workspace: Seq<char>,
    time: Seq<char>,
    hour: u8,
    minute: u8,
)
    requires
        schedules::good_name(name),
        name != "daily"@,
        !registry::names_of_schedules(config).contains(name),
        schedule::daily_time(time) == Some((hour, minute)),
    ensures
        ({
            let start = schedule_dialog::opening(schedule::WizardChoice::Add, config).0;
            let told = seq![
                schedule_dialog::ReplyModel::Named(name),
                schedule_dialog::ReplyModel::Workspace(Some(workspace)),
                schedule_dialog::ReplyModel::Time(time),
            ];
            let yes = seq![schedule_dialog::ReplyModel::Agreed(true)];
            let no = seq![schedule_dialog::ReplyModel::Agreed(false)];
            &&& about_schedules(start, told + yes, config) == Ok::<_, ErrorModel>(
                schedule_dialog::TalkModel::Install { name, workspace, hour, minute },
            )
            &&& about_schedules(start, told + no, config) == Ok::<_, ErrorModel>(schedule_dialog::TalkModel::Leave)
        }),
{
    schedules::lemma_good_names_are_taken("schedule"@, name);
    registry::lemma_first_workspace_of_the_name_is_found(
        config,
        name,
        WorkspaceModel { name, dir: name, log_file: None },
    );
    let start = schedule_dialog::opening(schedule::WizardChoice::Add, config).0;
    lemma_installation_talk(config, start, name, workspace, time, hour, minute, true);
    lemma_installation_talk(config, start, name, workspace, time, hour, minute, false);
}

proof fn lemma_installation_talk(
    config: ConfigModel,
    start: schedule_dialog::TalkModel,
    name: Seq<char>,
    workspace: Seq<char>,
    time: Seq<char>,
    hour: u8,
    minute: u8,
    yes: bool,
)
    requires
        start is AskName,
        crate::schedule_names::problem(name) is None,
        !config.has_schedule(name),
        schedule::daily_time(time) == Some((hour, minute)),
    ensures
        ({
            let told = seq![
                schedule_dialog::ReplyModel::Named(name),
                schedule_dialog::ReplyModel::Workspace(Some(workspace)),
                schedule_dialog::ReplyModel::Time(time),
            ];
            about_schedules(start, told + seq![schedule_dialog::ReplyModel::Agreed(yes)], config) == Ok::<_, ErrorModel>(
                if yes {
                    schedule_dialog::TalkModel::Install { name, workspace, hour, minute }
                } else {
                    schedule_dialog::TalkModel::Leave
                },
            )
        }),
{
    let a = schedule_dialog::ReplyModel::Named(name);
    let b = schedule_dialog::ReplyModel::Workspace(Some(workspace));
    let c = schedule_dialog::ReplyModel::Time(time);
    let d = schedule_dialog::ReplyModel::Agreed(yes);
    let one = schedule_dialog::TalkModel::AskWorkspace { name, current: None, time: "09:00"@ };
    let two = schedule_dialog::TalkModel::AskTime { name, workspace, time: "09:00"@, updating: false };
    let three = schedule_dialog::TalkModel::ConfirmInstall { name, workspace, hour, minute, updating: false };
    assert(seq![a, b, c] + seq![d] =~= seq![a] + (seq![b] + (seq![c] + (seq![d] + Seq::empty()))));
    lemma_schedule_turn(start, a, seq![b] + (seq![c] + (seq![d] + Seq::empty())), config);
    lemma_schedule_turn(one, b, seq![c] + (seq![d] + Seq::empty()), config);
    lemma_schedule_turn(two, c, seq![d] + Seq::empty(), config);
    lemma_schedule_turn(three, d, Seq::empty(), config);
}

/// A picked schedule is changed to the workspace and the time that were given, under its own name,
/// or removed, where that was agreed to, and stays where it was not; the time that is offered for it
/// is the one that it has.
pub proof fn lemma_picked_schedule_is_changed_or_removed(
    config: ConfigModel,
    i: usize,
    workspace: Seq<char>,
    time: Seq<char>,
    hour: u8,
    minute: u8,
)
    requires
        i < config.schedules.len(),
        schedule::daily_time(time) == Some((hour, minute)),
        config.schedules[i as int].hour < 24,
        config.schedules[i as int].minute < 60,
    ensures
        ({
            let s = config.schedules[i as int];
            let update = schedule_dialog::opening(schedule::WizardChoice::Update, config).0;
            let remove = schedule_dialog::opening(schedule::WizardChoice::Remove, config).0;
            let pick = schedule_dialog::ReplyModel::Picked(i);
            let told = seq![
                pick,
                schedule_dialog::ReplyModel::Workspace(Some(workspace)),
                schedule_dialog::ReplyModel::Time(time),
            ];
            let yes = seq![schedule_dialog::ReplyModel::Agreed(true)];
            let no = seq![schedule_dialog::ReplyModel::Agreed(false)];
            &&& about_schedules(update, told + yes, config) == Ok::<_, ErrorModel>(
                schedule_dialog::TalkModel::Install { name: s.name, workspace, hour, minute },
            )
            &&& about_schedules(update, told + no, config) == Ok::<_, ErrorModel>(schedule_dialog::TalkModel::Leave)
            &&& about_schedules(remove, seq![pick] + yes, config) == Ok::<_, ErrorModel>(
                schedule_dialog::TalkModel::Remove { name: s.name },
            )
            &&& about_schedules(remove, seq![pick] + no, config) == Ok::<_, ErrorModel>(
                schedule_dialog::TalkModel::Leave,
            )
            &&& about_schedules(update, seq![pick], config) matches Ok(
                schedule_dialog::TalkModel::AskWorkspace { name, current, time: offered },
            ) && name == s.name && current == Some(s.workspace) && schedule::daily_time(offered) == Some(
                (s.hour, s.minute),
            )
        }),
{
    let s = config.schedules[i as int];
    lemma_change_talk(config, i, workspace, time, hour, minute, true);
    lemma_change_talk(config, i, workspace, time, hour, minute, false);
    lemma_removal_talk(config, i, true);
    lemma_removal_talk(config, i, false);
    let update = schedule_dialog::TalkModel::PickToUpdate;
    let pick = schedule_dialog::ReplyModel::Picked(i);
    assert(seq![pick] =~= seq![pick] + Seq::empty());
    lemma_schedule_turn(update, pick, Seq::empty(), config);
    let t = platform::clock(s.hour as nat, s.minute as nat);
    texts::lemma_time_is_written_in_digits(s.hour as nat, s.minute as nat);
    texts::lemma_time_is_read_off_its_digits(t, s.hour, s.minute);
}

proof fn lemma_change_talk(
    config: ConfigModel,
    i: usize,
    workspace: Seq<char>,
    time: Seq<char>,
    hour: u8,
    minute: u8,
    yes: bool,
)
    requires
        i < config.schedules.len(),
        schedule::daily_time(time) == Some((hour, minute)),
    ensures
        ({
            let told = seq![
                schedule_dialog::ReplyModel::Picked(i),
                schedule_dialog::ReplyModel::Workspace(Some(workspace)),
                schedule_dialog::ReplyModel::Time(time),
            ];
            about_schedules(
                schedule_dialog::TalkModel::PickToUpdate,
                told + seq![schedule_dialog::ReplyModel::Agreed(yes)],
                config,
            ) == Ok::<_, ErrorModel>(
                if yes {
                    schedule_dialog::TalkModel::Install {
                        name: config.schedules[i as int].name,
                        workspace,
                        hour,
                        minute,
                    }
                } else {
                    schedule_dialog::TalkModel::Leave
                },
            )
        }),
{
    let s = config.schedules[i as int];
    let offered = platform::clock(s.hour as nat, s.minute as nat);
    let a = schedule_dialog::ReplyModel::Picked(i);
    let b = schedule_dialog::ReplyModel::Workspace(Some(workspace));
    let c = schedule_dialog::ReplyModel::Time(time);
    let d = schedule_dialog::ReplyModel::Agreed(yes);
    let start = schedule_dialog::TalkModel::PickToUpdate;
    let one = schedule_dialog::TalkModel::AskWorkspace { name: s.name, current: Some(s.workspace), time: offered };
    let two = schedule_dialog::TalkModel::AskTime { name: s.name, workspace, time: offered, updating: true };
    let three = schedule_dialog::TalkModel::ConfirmInstall { name: s.name, workspace, hour, minute, updating: true };
    assert(seq![a, b, c] + seq![d] =~= seq![a] + (seq![b] + (seq![c] + (seq![d] + Seq::empty()))));
    lemma_schedule_turn(start, a, seq![b] + (seq![c] + (seq![d] + Seq::empty())), config);
    lemma_schedule_turn(one, b, seq![c] + (seq![d] + Seq::empty()), config);
    lemma_schedule_turn(two, c, seq![d] + Seq::empty(), config);
    lemma_schedule_turn(three, d, Seq::empty(), config);
}

proof fn lemma_removal_talk(config: ConfigModel, i: usize, yes: bool)
    requires
        i < config.schedules.len(),
    ensures
        about_schedules(
            schedule_dialog::TalkModel::PickToRemove,
            seq![schedule_dialog::ReplyModel::Picked(i)] + seq![schedule_dialog::ReplyModel::Agreed(yes)],
            config,
        ) == Ok::<_, ErrorModel>(
            if yes {
                schedule_dialog::TalkModel::Remove { name: config.schedules[i as int].name }
            } else {
                schedule_dialog::TalkModel::Leave
            },
        ),
{
    let a = schedule_dialog::ReplyModel::Picked(i);
    let d = schedule_dialog::ReplyModel::Agreed(yes);
    let start = schedule_dialog::TalkModel::PickToRemove;
    let one = schedule_dialog::TalkModel::ConfirmRemoval { name: config.schedules[i as int].name };
    assert(seq![a] + seq![d] =~= seq![a] + (seq![d] + Seq::empty()));
    lemma_schedule_turn(start, a, seq![d] + Seq::empty(), config);
    lemma_schedule_turn(one, d, Seq::empty(), config);
}

/// A bad name and a bad time are asked for again, a name that is taken ends the conversation with an
/// error, and going back from the workspaces leaves it; without schedules there is nothing to pick.
pub proof fn lemma_bad_replies_install_nothing(
    config: ConfigModel,
    name: Seq<char>,
    workspace: Seq<char>,
    time: Seq<char>,
    given: Seq<char>,
    current: Option<Seq<char>>,
    updating: bool,
)
    ensures
        ({
            let ask = schedule_dialog::TalkModel::AskName;
            let r = about_schedules(ask, seq![schedule_dialog::ReplyModel::Named(name)], config);
            &&& !schedules::good_name(name) || name == "daily"@ ==> r == Ok::<_, ErrorModel>(ask)
            &&& schedules::good_name(name) && name != "daily"@ && registry::names_of_schedules(config).contains(name)
                ==> (r matches Err(e) && e.text == "Schedule already exists: "@ + name)
        }),
        ({
            let ask = schedule_dialog::TalkModel::AskTime { name, workspace, time, updating };
            schedule::daily_time(given) is None ==> about_schedules(
                ask,
                seq![schedule_dialog::ReplyModel::Time(given)],
                config,
            ) == Ok::<_, ErrorModel>(ask)
        }),
        about_schedules(
            schedule_dialog::TalkModel::AskWorkspace { name, current, time },
            seq![schedule_dialog::ReplyModel::Workspace(None)],
            config,
        ) == Ok::<_, ErrorModel>(schedule_dialog::TalkModel::Leave),
        config.schedules.len() == 0 ==> {
            &&& schedule_dialog::opening(schedule::WizardChoice::Update, config).0 is AskName
            &&& schedule_dialog::opening(schedule::WizardChoice::Remove, config).0 is Leave
        },
        schedule_dialog::opening(schedule::WizardChoice::Status, config).0 is ShowStatus,
        schedule_dialog::opening(schedule::WizardChoice::Cancel, config).0 is Leave,
{
    schedules::lemma_good_names_are_taken("schedule"@, name);
    registry::lemma_first_workspace_of_the_name_is_found(
        config,
        name,
        WorkspaceModel { name, dir: name, log_file: None },
    );
    let a = schedule_dialog::ReplyModel::Named(name);
    let b = schedule_dialog::ReplyModel::Time(given);
    let c = schedule_dialog::ReplyModel::Workspace(None);
    assert(seq![a] =~= seq![a] + Seq::empty());
    assert(seq![b] =~= seq![b] + Seq::empty());
    assert(seq![c] =~= seq![c] + Seq::empty());
    lemma_schedule_turn(schedule_dialog::TalkModel::AskName, a, Seq::empty(), config);
    lemma_schedule_turn(
        schedule_dialog::TalkModel::AskTime { name, workspace, time, updating },
        b,
        Seq::empty(),
        config,
    );
    lemma_schedule_turn(
        schedule_dialog::TalkModel::AskWorkspace { name, current, time },
        c,
        Seq::empty(),
        config,
    );
}

/// Where a conversation about workspaces stands after the replies.
pub open spec fn about_workspaces(
    talk: workspace_dialog::TalkModel,
    replies: Seq<workspace_dialog::ReplyModel>,
    settings: CliModel,
    config: ConfigModel,
) -> workspace_dialog::TalkModel
    decreases replies.len(),
{
    if replies.len() == 0 {
        talk
    } else {
        about_workspaces(talk.after(replies[0], settings, config).0, replies.drop_first(), settings, config)
    }
}

proof fn lemma_workspace_turn(
    talk: workspace_dialog::TalkModel,
    reply: workspace_dialog::ReplyModel,
    replies: Seq<workspace_dialog::ReplyModel>,
    settings: CliModel,
    config: ConfigModel,
)
    ensures
        about_workspaces(talk, seq![reply] + replies, settings, config) == about_workspaces(
            talk.after(reply, settings, config).0,
            replies,
            settings,
            config,
        ),
{
    assert((seq![reply] + replies).drop_first() =~= replies);
}

/// A new workspace with a good name, or a picked one under its own name, is saved with the directory
/// and the log file that were given, where that was agreed to, and not where it was not; a log file
/// that means the general one is none of its own.
pub proof fn lemma_workspace_is_saved_as_given(
    settings: CliModel,
    config: ConfigModel,
    name: Seq<char>,
    i: usize,
    dir: Seq<char>,
    log_file: Seq<char>,
)
    requires
        schedules::good_name(name),
        i < config.workspaces.len(),
    ensures
        ({
            let new = workspace_dialog::opening(workspace::WizardChoice::Add, config).0;
            let old_one = workspace_dialog::opening(workspace::WizardChoice::Update, config).0;
            let named = workspace_dialog::ReplyModel::Named(name);
            let pick = workspace_dialog::ReplyModel::Picked(MenuAction::Selected(i));
            let given = workspace_dialog::ReplyModel::Settings { dir, log_file };
            let yes = workspace_dialog::ReplyModel::Agreed(true);
            let no = workspace_dialog::ReplyModel::Agreed(false);
            let log = if workspace::means_general_log(log_file) {
                None
            } else {
                Some(log_file)
            };
            &&& about_workspaces(new, seq![named, given, yes], settings, config)
                == (workspace_dialog::TalkModel::Save { name, dir, log_file: log })
            &&& about_workspaces(new, seq![named, given, no], settings, config) is Leave
            &&& about_workspaces(old_one, seq![pick, given, yes], settings, config)
                == (workspace_dialog::TalkModel::Save { name: config.workspaces[i as int].name, dir, log_file: log })
            &&& about_workspaces(old_one, seq![pick, given, no], settings, config) is Leave
        }),
{
    schedules::lemma_good_names_are_taken("workspace"@, name);
    crate::defaults::lemma_accepted_names("workspace"@, name);
    let w = config.workspaces[i as int];
    let new = workspace_dialog::TalkModel::AskName;
    let old_one = workspace_dialog::TalkModel::PickToUpdate;
    let named = workspace_dialog::ReplyModel::Named(name);
    let pick = workspace_dialog::ReplyModel::Picked(MenuAction::Selected(i));
    let a = workspace_dialog::TalkModel::AskSettings { name, dir: settings.dir, log_file: ""@, updating: false };
    let b = workspace_dialog::TalkModel::AskSettings {
        name: w.name,
        dir: w.dir,
        log_file: match w.log_file {
            Some(log) => log,
            None => ""@,
        },
        updating: true,
    };
    assert(new.after(named, settings, config).0 == a);
    assert(old_one.after(pick, settings, config).0 == b);
    lemma_save_talk(settings, config, new, named, a, dir, log_file, true);
    lemma_save_talk(settings, config, new, named, a, dir, log_file, false);
    lemma_save_talk(settings, config, old_one, pick, b, dir, log_file, true);
    lemma_save_talk(settings, config, old_one, pick, b, dir, log_file, false);
}

proof fn lemma_save_talk(
    settings: CliModel,
    config: ConfigModel,
    start: workspace_dialog::TalkModel,
    first: workspace_dialog::ReplyModel,
    asked: workspace_dialog::TalkModel,
    dir: Seq<char>,
    log_file: Seq<char>,
    yes: bool,
)
    requires
        start.after(first, settings, config).0 == asked,
        asked is AskSettings,
    ensures
        about_workspaces(
            start,
            seq![
                first,
                workspace_dialog::ReplyModel::Settings { dir, log_file },
                workspace_dialog::ReplyModel::Agreed(yes),
            ],
            settings,
            config,
        ) == (if yes {
            workspace_dialog::TalkModel::Save {
                name: asked->AskSettings_name,
                dir,
                log_file: if workspace::means_general_log(log_file) {
                    None
                } else {
                    Some(log_file)
                },
            }
        } else {
            workspace_dialog::TalkModel::Leave
        }),
{
    let b = workspace_dialog::ReplyModel::Settings { dir, log_file };
    let c = workspace_dialog::ReplyModel::Agreed(yes);
    let next = asked.after(b, settings, config).0;
    assert(seq![first, b, c] =~= seq![first] + (seq![b] + (seq![c] + Seq::empty())));
    lemma_workspace_turn(start, first, seq![b] + (seq![c] + Seq::empty()), settings, config);
    lemma_workspace_turn(asked, b, seq![c] + Seq::empty(), settings, config);
    lemma_workspace_turn(next, c, Seq::empty(), settings, config);
}

/// A picked workspace is removed where that was agreed to and stays where it was not; going back
/// leaves the conversation; a bad name is asked for again; and what is offered for a workspace is
/// what it has.
pub proof fn lemma_picked_workspace_is_removed(
    settings: CliModel,
    config: ConfigModel,
    name: Seq<char>,
    i: usize,
)
    requires
        i < config.workspaces.len(),
    ensures
        ({
            let w = config.workspaces[i as int];
            let update = workspace_dialog::opening(workspace::WizardChoice::Update, config).0;
            let remove = workspace_dialog::opening(workspace::WizardChoice::Remove, config).0;
            let pick = workspace_dialog::ReplyModel::Picked(MenuAction::Selected(i));
            let back = workspace_dialog::ReplyModel::Picked(MenuAction::Back);
            let yes = workspace_dialog::ReplyModel::Agreed(true);
            let no = workspace_dialog::ReplyModel::Agreed(false);
            &&& remove.after(pick, settings, config).0.after(yes, settings, config).0
                == (workspace_dialog::TalkModel::Remove { name: w.name })
            &&& remove.after(pick, settings, config).0.after(no, settings, config).0 is Leave
            &&& remove.after(back, settings, config).0 is Leave
            &&& update.after(back, settings, config).0 is Leave
            &&& update.after(pick, settings, config).0 matches workspace_dialog::TalkModel::AskSettings {
                name: n,
                dir,
                log_file,
                ..
            } && n == w.name && dir == w.dir && (w.log_file is Some ==> log_file == w.log_file->0) && (w.log_file is None
                ==> log_file == ""@)
        }),
        !schedules::good_name(name) ==> workspace_dialog::TalkModel::AskName.after(
            workspace_dialog::ReplyModel::Named(name),
            settings,
            config,
        ).0 is AskName,
        schedules::good_name(name) ==> (workspace_dialog::TalkModel::AskName.after(
            workspace_dialog::ReplyModel::Named(name),
            settings,
            config,
        ).0 matches workspace_dialog::TalkModel::AskSettings { name: n, dir, log_file, .. } && n == name && dir
            == settings.dir && log_file == ""@),
        workspace_dialog::opening(workspace::WizardChoice::List, config).0 is List,
        workspace_dialog::opening(workspace::WizardChoice::Cancel, config).0 is Leave,
{
    schedules::lemma_good_names_are_taken("workspace"@, name);
    crate::defaults::lemma_accepted_names("workspace"@, name);
}

/// The wizard of the daily schedule: where none is installed, setting one up is agreed to, its
/// settings are given, and it is installed where that is agreed to; where one is, it is changed after
/// the first choice, removed after the second where that is agreed to, and otherwise left.
pub proof fn lemma_daily_wizard_does_as_told(choice: usize)
    ensures
        scheduler::opening_question(false) is ConfirmSetup,
        scheduler::opening_question(true) is Menu,
        scheduler::next_move(false, Question::ConfirmSetup, Answer::Confirmed(true)) == WizardMove::Ask(
            Question::Settings,
        ),
        scheduler::next_move(false, Question::Settings, Answer::Given) == WizardMove::Ask(Question::ConfirmInstall),
        scheduler::next_move(false, Question::ConfirmInstall, Answer::Confirmed(true)) is Install,
        scheduler::next_move(false, Question::ConfirmInstall, Answer::Confirmed(false)) is Cancel,
        scheduler::next_move(false, Question::ConfirmSetup, Answer::Confirmed(false)) is Cancel,
        choice == 0 ==> scheduler::next_move(true, Question::Menu, Answer::Selected(choice)) == WizardMove::Ask(
            Question::Settings,
        ),
        choice == 1 ==> scheduler::next_move(true, Question::Menu, Answer::Selected(choice)) == WizardMove::Ask(
            Question::ConfirmRemoval,
        ),
        choice > 1 ==> scheduler::next_move(true, Question::Menu, Answer::Selected(choice)) is Cancel,
        scheduler::next_move(true, Question::Settings, Answer::Given) is Install,
        scheduler::next_move(true, Question::ConfirmRemoval, Answer::Confirmed(true)) is Uninstall,
        scheduler::next_move(true, Question::ConfirmRemoval, Answer::Confirmed(false)) is Cancel,
{
}

/// A conversation says why it ends before it has begun and when it was cancelled, and says nothing
/// otherwise; a choice that is not on the list is asked for again.
pub proof fn lemma_conversations_say_why_they_end(
    settings: CliModel,
    config: ConfigModel,
    name: Seq<char>,
    workspace: Seq<char>,
    hour: u8,
    minute: u8,
    i: usize,
)
    ensures
        ({
            let said = |words: Seq<char>| Some(ui::text_line(words));
            let no = schedule_dialog::ReplyModel::Agreed(false);
            let pick = schedule_dialog::ReplyModel::Picked(i);
            let updating = schedule_dialog::TalkModel::ConfirmInstall { name, workspace, hour, minute, updating: true };
            let adding = schedule_dialog::TalkModel::ConfirmInstall { name, workspace, hour, minute, updating: false };
            let removing = schedule_dialog::TalkModel::ConfirmRemoval { name };
            &&& schedule_dialog::opening(schedule::WizardChoice::Cancel, config).1 == said("Cancelled."@)
            &&& config.schedules.len() == 0 ==> schedule_dialog::opening(schedule::WizardChoice::Update, config).1
                == said("No registered schedules to update."@)
            &&& config.schedules.len() == 0 ==> schedule_dialog::opening(schedule::WizardChoice::Remove, config).1
                == said("No registered schedules to remove."@)
            &&& config.schedules.len() > 0 ==> schedule_dialog::opening(schedule::WizardChoice::Update, config).1 is None
                && schedule_dialog::opening(schedule::WizardChoice::Remove, config).1 is None
            &&& schedule_dialog::opening(schedule::WizardChoice::Add, config).1 is None
            &&& adding.after(no, config)->Ok_0.1 == said("Cancelled."@)
            &&& updating.after(no, config)->Ok_0.1 == said("Cancelled."@)
            &&& removing.after(no, config)->Ok_0.1 == said("Cancelled."@)
            &&& i >= config.schedules.len() ==> {
                &&& schedule_dialog::TalkModel::PickToUpdate.after(pick, config)->Ok_0.0 is PickToUpdate
                &&& schedule_dialog::TalkModel::PickToRemove.after(pick, config)->Ok_0.0 is PickToRemove
            }
        }),
        ({
            let aside = |words: Seq<char>| Some(ui::one(""@, ui::span(words, Style::Muted)));
            let no = workspace_dialog::ReplyModel::Agreed(false);
            let pick = workspace_dialog::ReplyModel::Picked(MenuAction::Selected(i));
            let removing = workspace_dialog::TalkModel::ConfirmRemoval { name };
            &&& workspace_dialog::opening(workspace::WizardChoice::Cancel, config).1 == aside("Cancelled."@)
            &&& config.workspaces.len() == 0 ==> {
                &&& workspace_dialog::opening(workspace::WizardChoice::Update, config) == (
                    workspace_dialog::TalkModel::Leave,
                    aside("No registered workspaces to update."@),
                )
                &&& workspace_dialog::opening(workspace::WizardChoice::Remove, config) == (
                    workspace_dialog::TalkModel::Leave,
                    aside("No registered workspaces to remove."@),
                )
            }
            &&& removing.after(no, settings, config).1 == aside("Cancelled."@)
            &&& workspace_dialog::TalkModel::ConfirmSave { name, dir: workspace, log_file: None, updating: true }.after(
                no,
                settings,
                config,
            ).1 == aside("Cancelled."@)
            &&& workspace_dialog::TalkModel::ConfirmSave { name, dir: workspace, log_file: None, updating: false }.after(
                no,
                settings,
                config,
            ).1 == Some(ui::text_line("Cancelled."@))
            &&& i >= config.workspaces.len() ==> {
                &&& workspace_dialog::TalkModel::PickToUpdate.after(pick, settings, config).0 is PickToUpdate
                &&& workspace_dialog::TalkModel::PickToRemove.after(pick, settings, config).0 is PickToRemove
            }
        }),
{
}

} // verus!
