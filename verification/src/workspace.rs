//! Named workspaces: what is saved, shown and asked about them.
use crate::cli;
use crate::cli::{Cli, CliModel};
use crate::config::{ConfigModel, RuntimeConfigFile, ScheduleModel, WorkspaceConfig, WorkspaceModel};
use crate::defaults;
use crate::error::{Error, ErrorModel};
use crate::gc;
use crate::names;
use crate::text;
use crate::ui;
use crate::ui::{Line, Menu, MenuAction, MenuModel, Navigation, SpanModel, Style};
use vstd::prelude::*;

verus! {

/// A workspace as a choice: its name and its directory.
pub open spec fn choice_label(w: WorkspaceModel) -> Seq<char> {
    w.name + " ("@ + w.dir + ")"@
}

/// The workspaces as choices.
pub open spec fn choice_labels(ws: Seq<WorkspaceModel>) -> Seq<Seq<char>> {
    Seq::new(ws.len(), |i: int| choice_label(ws[i]))
}

/// A question for one of the saved workspaces.
pub open spec fn workspace_question(config: ConfigModel, prompt: Seq<char>) -> MenuModel {
    MenuModel { heading: Seq::empty(), prompt, choices: choice_labels(config.workspaces), default: 0 }
}

/// A question for one of the saved workspaces.
pub fn workspace_menu(config: &RuntimeConfigFile, prompt: &str) -> (r: Menu)
    ensures
        r@ == workspace_question(config@, prompt@),
{
    let ghost all = config@.workspaces;
    let mut choices: Vec<String> = Vec::new();
    let mut i: usize = 0;
    while i < config.workspaces.len()
        invariant
            i <= config.workspaces.len(),
            all == config.workspaces.deep_view(),
            choices.deep_view() == choice_labels(all.subrange(0, i as int)),
        decreases config.workspaces.len() - i,
    {
        let w = &config.workspaces[i];
        let mut label = w.name.clone();
        label.append(" (");
        label.append(w.dir.as_str());
        label.append(")");
        assert(all[i as int] == w@);
        names::put(&mut choices, label);
        assert(choices.deep_view() =~= choice_labels(all.subrange(0, i + 1)));
        i = i + 1;
    }
    assert(all.subrange(0, all.len() as int) =~= all);
    Menu { heading: Vec::new(), prompt: prompt.to_owned(), choices, default: 0 }
}

/// The log file that was asked for on the command line, if one was.
pub open spec fn log_asked_for(settings: CliModel, args: Seq<Seq<char>>) -> Option<Seq<char>> {
    if cli::log_given(args) {
        Some(settings.log_file)
    } else {
        None
    }
}

/// The log file that a workspace added on the command line gets: the one that was given, if any.
pub fn given_log_file(cli: &Cli, args: &Vec<String>) -> (r: Option<String>)
    ensures
        r.deep_view() == log_asked_for(cli@, args.deep_view()),
{
    if cli::gives_log(args) {
        Some(cli.log_file.clone())
    } else {
        None
    }
}

/// There is more than one workspace to choose from.
pub open spec fn leaves_a_choice(config: ConfigModel) -> bool {
    config.workspaces.len() > 1
}

/// The question for the workspace to clean up, where there is more than one.
pub fn prompt_run_if_needed(config: &RuntimeConfigFile) -> (r: Option<Menu>)
    ensures
        r is Some <==> leaves_a_choice(config@),
        r matches Some(menu) ==> menu@ == workspace_question(config@, "Select workspace to run cleanup"@),
{
    if config.workspaces.len() <= 1 {
        None
    } else {
        Some(workspace_menu(config, "Select workspace to run cleanup"))
    }
}

/// The settings of a cleanup of that workspace.
pub open spec fn in_workspace(settings: CliModel, config: ConfigModel, w: WorkspaceModel) -> CliModel {
    CliModel {
        workspace: Some(w.name),
        dir: w.dir,
        log_file: match (w.log_file, config.log_file) {
            (Some(log), _) => log,
            (None, Some(log)) => log,
            (None, None) => settings.log_file,
        },
        ..settings
    }
}

/// What is printed before a cleanup of a workspace that was chosen.
pub open spec fn run_lines(settings: CliModel) -> Seq<Seq<SpanModel>> {
    seq![
        ui::blank(),
        ui::one("  "@, ui::span("Run cleanup"@, Style::Title)),
        ui::two("  "@, ui::label_of("Workspace"@), ui::span(settings.workspace->0, Style::Name)),
        ui::two("  "@, ui::label_of("Directory"@), ui::span(settings.dir, Style::Path)),
        ui::two("  "@, ui::label_of("Log file"@), ui::span(settings.log_file, Style::Path)),
        ui::blank(),
    ]
}

/// The settings of a cleanup after the choice of a workspace.
pub open spec fn after_choice(settings: CliModel, config: ConfigModel, answer: MenuAction) -> CliModel {
    match answer {
        MenuAction::Back => settings,
        MenuAction::Selected(i) => in_workspace(settings, config, config.workspaces[i as int]),
    }
}

/// Takes in the answer to [`prompt_run_if_needed`]: the settings become those of the workspace.
pub fn choose_run_workspace(cli: &mut Cli, config: &RuntimeConfigFile, answer: MenuAction) -> (r: (Navigation, Vec<Line>))
    requires
        answer matches MenuAction::Selected(i) ==> i < config@.workspaces.len(),
    ensures
        final(cli).command == old(cli).command,
        final(cli)@ == after_choice(old(cli)@, config@, answer),
        match answer {
            MenuAction::Back => r.0 is Back && r.1.deep_view() == Seq::<Seq<SpanModel>>::empty(),
            MenuAction::Selected(_) => r.0 is Done && r.1.deep_view() == run_lines(final(cli)@),
        },
{
    let mut lines: Vec<Line> = Vec::new();
    assert(lines.deep_view() =~= Seq::empty());
    let selection: usize = match answer {
        MenuAction::Selected(selection) => selection,
        MenuAction::Back => return (Navigation::Back, lines),
    };
    let w = &config.workspaces[selection];
    assert(config@.workspaces[selection as int] == w@);
    cli.workspace = Some(w.name.clone());
    cli.dir = w.dir.clone();
    if let Some(log_file) = &w.log_file {
        cli.log_file = log_file.clone();
    } else if let Some(log_file) = &config.log_file {
        cli.log_file = log_file.clone();
    }
    ui::put_blank(&mut lines);
    names::put(&mut lines, Line::one("  ", ui::title("Run cleanup")));
    names::put(&mut lines, Line::two("  ", ui::label("Workspace"), ui::name(w.name.as_str())));
    names::put(&mut lines, Line::two("  ", ui::label("Directory"), ui::path(cli.dir.as_str())));
    names::put(&mut lines, Line::two("  ", ui::label("Log file"), ui::path(cli.log_file.as_str())));
    ui::put_blank(&mut lines);
    assert(lines.deep_view() =~= run_lines(cli@));
    (Navigation::Done, lines)
}

/// The general log file, as it is shown.
pub open spec fn general_log(log_file: Seq<char>) -> Seq<char> {
    "(global default: "@ + log_file + ")"@
}

/// The log file of a workspace, as it is shown. `built_in` is the one that applies where none is
/// saved.
pub open spec fn log_display(w: WorkspaceModel, config: ConfigModel, built_in: Seq<char>) -> Seq<char> {
    match (w.log_file, config.log_file) {
        (Some(log), _) => log,
        (None, Some(log)) => general_log(log),
        (None, None) => general_log(built_in),
    }
}

fn general_log_text(log_file: &str) -> (r: String)
    ensures
        r@ == general_log(log_file@),
{
    let mut text = "(global default: ".to_owned();
    text.append(log_file);
    text.append(")");
    text
}

/// The log file of a workspace, as it is shown.
pub fn workspace_log_display(workspace: &WorkspaceConfig, config: &RuntimeConfigFile, built_in: &str) -> (r: String)
    ensures
        r@ == log_display(workspace@, config@, built_in@),
{
    match (&workspace.log_file, &config.log_file) {
        (Some(log), _) => log.clone(),
        (None, Some(log)) => general_log_text(log.as_str()),
        (None, None) => general_log_text(built_in),
    }
}

/// What is wrong with a new workspace.
pub open spec fn new_workspace_complaint(name: Seq<char>, dir: Seq<char>, dir_exists: bool) -> Option<Seq<char>> {
    match defaults::name_problem("workspace"@, name) {
        Some(complaint) => Some(complaint),
        None => if dir_exists {
            None
        } else {
            Some("Workspace directory does not exist: "@ + dir)
        },
    }
}

/// Accepts a new workspace, or says what is wrong with it.
pub fn check_new_workspace(name: &str, dir: &str, dir_exists: bool) -> (r: Result<(), Error>)
    ensures
        gc::done_model(r) == (match new_workspace_complaint(name@, dir@, dir_exists) {
            Some(complaint) => Err(ErrorModel::plain(complaint)),
            None => Ok(()),
        }),
{
    match defaults::validate_registration_name("workspace", name) {
        Ok(()) => {},
        Err(e) => return Err(e),
    }
    if !dir_exists {
        let mut text = "Workspace directory does not exist: ".to_owned();
        text.append(dir);
        return Err(Error::new(text));
    }
    Ok(())
}

/// What is printed once a workspace is saved.
pub open spec fn saved_lines(
    w: WorkspaceModel,
    config: ConfigModel,
    config_path: Seq<char>,
    built_in: Seq<char>,
) -> Seq<Seq<SpanModel>> {
    seq![
        ui::one(""@, ui::span("Saved workspace"@, Style::Success)),
        ui::two("  "@, ui::label_of("Name"@), ui::span(w.name, Style::Name)),
        ui::two("  "@, ui::label_of("Dir"@), ui::span(w.dir, Style::Path)),
        ui::two("  "@, ui::label_of("Log"@), ui::span(log_display(w, config, built_in), Style::Value)),
        ui::two("  "@, ui::label_of("Config"@), ui::span(config_path, Style::Path)),
    ]
}

/// The configuration after the workspace was to be added: with it, or as it was where it was refused.
pub open spec fn added(config: ConfigModel, w: WorkspaceModel, dir_exists: bool, next: ConfigModel) -> bool {
    match new_workspace_complaint(w.name, w.dir, dir_exists) {
        Some(_) => next == config,
        None => config.with_workspace(w, next),
    }
}

/// The answer where the workspace was to be added: what was saved, or why not.
pub open spec fn adding_answer(
    config: ConfigModel,
    w: WorkspaceModel,
    dir_exists: bool,
    config_path: Seq<char>,
    built_in: Seq<char>,
) -> Result<Seq<Seq<SpanModel>>, ErrorModel> {
    match new_workspace_complaint(w.name, w.dir, dir_exists) {
        Some(complaint) => Err(ErrorModel::plain(complaint)),
        None => Ok(saved_lines(w, config, config_path, built_in)),
    }
}

/// Saves a workspace, new or under a name that there is, and says what is printed once the
/// configuration is written.
pub fn add_workspace(
    config: &mut RuntimeConfigFile,
    name: &str,
    dir: &str,
    dir_exists: bool,
    log_file: Option<String>,
    config_path: &str,
    built_in: &str,
) -> (r: Result<Vec<Line>, Error>)
    ensures
        r is Err ==> *final(config) == *old(config),
        added(
            old(config)@,
            (WorkspaceModel { name: name@, dir: dir@, log_file: log_file.deep_view() }),
            dir_exists,
            final(config)@,
        ),
        cli::lines_model(r) == adding_answer(
            old(config)@,
            (WorkspaceModel { name: name@, dir: dir@, log_file: log_file.deep_view() }),
            dir_exists,
            config_path@,
            built_in@,
        ),
{
    match check_new_workspace(name, dir, dir_exists) {
        Ok(()) => {},
        Err(e) => return Err(e),
    }
    let w = WorkspaceConfig { name: name.to_owned(), dir: dir.to_owned(), log_file };
    let log = workspace_log_display(&w, config, built_in);
    let ghost model = w@;
    let ghost before = config@;
    config.upsert_workspace(w);
    let mut lines: Vec<Line> = Vec::new();
    names::put(&mut lines, Line::one("", ui::success("Saved workspace")));
    names::put(&mut lines, Line::two("  ", ui::label("Name"), ui::name(name)));
    names::put(&mut lines, Line::two("  ", ui::label("Dir"), ui::path(dir)));
    names::put(&mut lines, Line::two("  ", ui::label("Log"), ui::value(log.as_str())));
    names::put(&mut lines, Line::two("  ", ui::label("Config"), ui::path(config_path)));
    assert(lines.deep_view() =~= saved_lines(model, before, config_path@, built_in@));
    Ok(lines)
}

/// The names of the schedules that use a workspace, as they stand.
pub open spec fn users(schedules: Seq<ScheduleModel>, workspace: Seq<char>) -> Seq<Seq<char>>
    decreases schedules.len(),
{
    if schedules.len() == 0 {
        Seq::empty()
    } else {
        let before = users(schedules.drop_last(), workspace);
        if schedules.last().workspace == workspace {
            before.push(schedules.last().name)
        } else {
            before
        }
    }
}

fn users_of(config: &RuntimeConfigFile, workspace: &str) -> (r: Vec<String>)
    ensures
        r.deep_view() == users(config@.schedules, workspace@),
{
    let ghost all = config@.schedules;
    let mut out: Vec<String> = Vec::new();
    let mut i: usize = 0;
    assert(out.deep_view() =~= users(all.subrange(0, 0), workspace@));
    while i < config.schedules.len()
        invariant
            i <= config.schedules.len(),
            all == config.schedules.deep_view(),
            out.deep_view() == users(all.subrange(0, i as int), workspace@),
        decreases config.schedules.len() - i,
    {
        let s = &config.schedules[i];
        proof {
            let now = all.subrange(0, i + 1);
            assert(now.drop_last() =~= all.subrange(0, i as int));
            assert(now.last() == s@);
        }
        if text::same(s.workspace.as_str(), workspace) {
            names::put(&mut out, s.name.clone());
        }
        i = i + 1;
    }
    assert(all.subrange(0, all.len() as int) =~= all);
    out
}

/// Why a workspace cannot be removed.
pub open spec fn removal_complaint(config: ConfigModel, name: Seq<char>) -> Option<Seq<char>> {
    match defaults::name_problem("workspace"@, name) {
        Some(complaint) => Some(complaint),
        None => if users(config.schedules, name).len() > 0 {
            Some(
                "Workspace '"@ + name + "' is used by schedule(s): "@ + text::join(users(config.schedules, name), ", "@)
                    + ". Remove those schedules first."@,
            )
        } else if !config.has_workspace(name) {
            Some("Workspace not found: "@ + name)
        } else {
            None
        },
    }
}

/// The configuration after the workspace was to be removed: without it, or as it was where that was
/// refused.
pub open spec fn after_removing(config: ConfigModel, name: Seq<char>) -> ConfigModel {
    match removal_complaint(config, name) {
        Some(_) => config,
        None => config.without_workspace(name),
    }
}

/// The answer where the workspace was to be removed.
pub open spec fn removing_answer(config: ConfigModel, name: Seq<char>) -> Result<Seq<SpanModel>, ErrorModel> {
    match removal_complaint(config, name) {
        Some(complaint) => Err(ErrorModel::plain(complaint)),
        None => Ok(
            ui::two(""@, ui::span("Removed workspace:"@, Style::Success), ui::span(name, Style::Name)),
        ),
    }
}

/// What a line or an error says.
pub open spec fn line_model(r: Result<Line, Error>) -> Result<Seq<SpanModel>, ErrorModel> {
    match r {
        Ok(line) => Ok(line@),
        Err(e) => Err(e@),
    }
}

/// Removes a workspace that no schedule uses, and says what is printed once that is written.
pub fn remove_workspace(config: &mut RuntimeConfigFile, name: &str) -> (r: Result<Line, Error>)
    ensures
        line_model(r) == removing_answer(old(config)@, name@),
        final(config)@ == after_removing(old(config)@, name@),
{
    match defaults::validate_registration_name("workspace", name) {
        Ok(()) => {},
        Err(e) => return Err(e),
    }
    let users = users_of(config, name);
    if users.len() > 0 {
        let mut text = "Workspace '".to_owned();
        text.append(name);
        text.append("' is used by schedule(s): ");
        text.append(text::join_texts(&users, ", ").as_str());
        text.append(". Remove those schedules first.");
        return Err(Error::new(text));
    }
    let found = config.find_workspace(name).is_some();
    if !found {
        let mut text = "Workspace not found: ".to_owned();
        text.append(name);
        return Err(Error::new(text));
    }
    config.remove_workspace(name);
    Ok(Line::two("", ui::success("Removed workspace:"), ui::name(name)))
}

/// The lines about one saved workspace.
pub open spec fn entry_lines(w: WorkspaceModel, config: ConfigModel, built_in: Seq<char>) -> Seq<Seq<SpanModel>> {
    seq![
        ui::one("  "@, ui::span(w.name, Style::Name)),
        ui::two("    "@, ui::label_of("Dir"@), ui::span(w.dir, Style::Path)),
        ui::two("    "@, ui::label_of("Log"@), ui::span(log_display(w, config, built_in), Style::Value)),
    ]
}

/// The lines about several saved workspaces.
pub open spec fn entries(ws: Seq<WorkspaceModel>, config: ConfigModel, built_in: Seq<char>) -> Seq<Seq<SpanModel>>
    decreases ws.len(),
{
    if ws.len() == 0 {
        Seq::empty()
    } else {
        entries(ws.drop_last(), config, built_in) + entry_lines(ws.last(), config, built_in)
    }
}

/// What is printed about the saved workspaces.
pub open spec fn registered(config: ConfigModel, built_in: Seq<char>) -> Seq<Seq<SpanModel>> {
    seq![ui::one(""@, ui::span("Registered workspaces"@, Style::Title))] + if config.workspaces.len() == 0 {
        seq![ui::one("  "@, ui::span("(none)"@, Style::Muted))]
    } else {
        entries(config.workspaces, config, built_in)
    }
}

/// What is printed about the saved workspaces. `built_in` is the log file that applies where none is
/// saved.
pub fn print_registered(config: &RuntimeConfigFile, built_in: &str) -> (r: Vec<Line>)
    ensures
        r.deep_view() == registered(config@, built_in@),
{
    let mut lines: Vec<Line> = Vec::new();
    names::put(&mut lines, Line::one("", ui::title("Registered workspaces")));
    let ghost top = seq![ui::one(""@, ui::span("Registered workspaces"@, Style::Title))];
    assert(lines.deep_view() =~= top);
    if config.workspaces.len() == 0 {
        names::put(&mut lines, Line::one("  ", ui::muted("(none)")));
        return lines;
    }
    let ghost all = config@.workspaces;
    let mut i: usize = 0;
    assert(top + entries(all.subrange(0, 0), config@, built_in@) =~= top);
    while i < config.workspaces.len()
        invariant
            i <= config.workspaces.len(),
            all == config.workspaces.deep_view(),
            lines.deep_view() == top + entries(all.subrange(0, i as int), config@, built_in@),
        decreases config.workspaces.len() - i,
    {
        let w = &config.workspaces[i];
        proof {
            let now = all.subrange(0, i + 1);
            assert(now.drop_last() =~= all.subrange(0, i as int));
            assert(now.last() == w@);
        }
        names::put(&mut lines, Line::one("  ", ui::name(w.name.as_str())));
        names::put(&mut lines, Line::two("    ", ui::label("Dir"), ui::path(w.dir.as_str())));
        names::put(
            &mut lines,
            Line::two("    ", ui::label("Log"), ui::value(workspace_log_display(w, config, built_in).as_str())),
        );
        assert(lines.deep_view() =~= top + entries(all.subrange(0, i + 1), config@, built_in@));
        i = i + 1;
    }
    assert(all.subrange(0, all.len() as int) =~= all);
    lines
}

/// What the workspace menu leads to.
#[derive(Debug, Clone, Copy, PartialEq, Eq, Structural)]
pub enum WizardChoice {
    Add,
    Update,
    Remove,
    List,
    Cancel,
}

/// The workspace menu.
pub open spec fn wizard(config: ConfigModel, built_in: Seq<char>) -> MenuModel {
    MenuModel {
        heading: seq![
            ui::blank(),
            ui::one("  "@, ui::span("worktree-gc workspaces"@, Style::Title)),
            ui::one("  "@, ui::span("Manage named scan directories"@, Style::Subtitle)),
            ui::blank(),
        ] + registered(config, built_in) + seq![ui::blank()],
        prompt: "What would you like to do?"@,
        choices: seq![
            "Add workspace"@,
            "Update workspace"@,
            "Remove workspace"@,
            "List workspaces"@,
            "Cancel"@,
        ],
        default: if config.workspaces.len() == 0 { 0 } else { 1 },
    }
}

/// The workspace menu: it offers an update first where there is a workspace.
pub fn interactive_wizard(config: &RuntimeConfigFile, built_in: &str) -> (r: Menu)
    ensures
        r@ == wizard(config@, built_in@),
{
    let mut heading: Vec<Line> = Vec::new();
    ui::put_blank(&mut heading);
    names::put(&mut heading, Line::one("  ", ui::title("worktree-gc workspaces")));
    names::put(&mut heading, Line::one("  ", ui::subtitle("Manage named scan directories")));
    ui::put_blank(&mut heading);
    ui::put_lines(&mut heading, print_registered(config, built_in));
    ui::put_blank(&mut heading);
    let mut choices: Vec<String> = Vec::new();
    names::put(&mut choices, "Add workspace".to_owned());
    names::put(&mut choices, "Update workspace".to_owned());
    names::put(&mut choices, "Remove workspace".to_owned());
    names::put(&mut choices, "List workspaces".to_owned());
    names::put(&mut choices, "Cancel".to_owned());
    let default: usize = if config.workspaces.len() == 0 { 0 } else { 1 };
    let r = Menu { heading, prompt: "What would you like to do?".to_owned(), choices, default };
    assert(r@.heading =~= wizard(config@, built_in@).heading);
    assert(r@.choices =~= wizard(config@, built_in@).choices);
    r
}

/// What a choice of [`interactive_wizard`] leads to.
pub open spec fn choice_behind(selection: usize) -> WizardChoice {
    if selection == 0 {
        WizardChoice::Add
    } else if selection == 1 {
        WizardChoice::Update
    } else if selection == 2 {
        WizardChoice::Remove
    } else if selection == 3 {
        WizardChoice::List
    } else {
        WizardChoice::Cancel
    }
}

/// What a choice of [`interactive_wizard`] leads to.
pub fn wizard_choice(selection: usize) -> (r: WizardChoice)
    ensures
        r == choice_behind(selection),
{
    match selection {
        0 => WizardChoice::Add,
        1 => WizardChoice::Update,
        2 => WizardChoice::Remove,
        3 => WizardChoice::List,
        _ => WizardChoice::Cancel,
    }
}

/// The directory and the log file that are offered for a workspace: its own, or for a new one the
/// current directory and no log file.
pub open spec fn offered_settings(settings: CliModel, current: Option<WorkspaceModel>) -> (Seq<char>, Seq<char>) {
    match current {
        Some(w) => (
            w.dir,
            match w.log_file {
                Some(log) => log,
                None => ""@,
            },
        ),
        None => (settings.dir, ""@),
    }
}

/// The directory and the log file that are offered: those of the workspace, else the current
/// directory and no log file.
pub fn prompt_workspace_settings(cli: &Cli, current: Option<&WorkspaceConfig>) -> (r: (String, String))
    ensures
        (r.0@, r.1@) == offered_settings(cli@, current.deep_view()),
{
    match current {
        Some(w) => {
            let log = match &w.log_file {
                Some(log) => log.clone(),
                None => "".to_owned(),
            };
            (w.dir.clone(), log)
        },
        None => (cli.dir.clone(), "".to_owned()),
    }
}

/// The question for the log file of a workspace.
pub fn log_file_prompt(built_in: &str) -> (r: String)
    ensures
        r@ == "Log file (blank/default uses "@ + built_in@ + ")"@,
{
    let mut prompt = "Log file (blank/default uses ".to_owned();
    prompt.append(built_in);
    prompt.append(")");
    prompt
}

/// The answer stands for the general log file: nothing but white space, or `default` in any case.
pub open spec fn means_general_log(answer: Seq<char>) -> bool {
    text::trim(answer).len() == 0 || text::same_ignoring_case(text::trim(answer), "default"@)
}

/// The log of its own that the answer means, if it means one.
pub open spec fn log_meant(answer: Seq<char>) -> Option<Seq<char>> {
    if means_general_log(answer) {
        None
    } else {
        Some(answer)
    }
}

/// The log file that an answer to [`log_file_prompt`] stands for.
pub fn chosen_log_file(answer: String) -> (r: Option<String>)
    ensures
        r.deep_view() == log_meant(answer@),
{
    let core = text::trimmed(answer.as_str());
    if core.is_empty() || text::eq_ignore_case(core, "default") {
        None
    } else {
        Some(answer)
    }
}

/// What is printed before a workspace is saved.
pub open spec fn summary_lines(name: Seq<char>, dir: Seq<char>, log_file: Option<Seq<char>>, built_in: Seq<char>) -> Seq<
    Seq<SpanModel>,
> {
    seq![
        ui::blank(),
        ui::one("  "@, ui::span("Summary"@, Style::Title)),
        ui::two("  "@, ui::label_of("Workspace"@), ui::span(name, Style::Name)),
        ui::two("  "@, ui::label_of("Directory"@), ui::span(dir, Style::Path)),
        ui::two(
            "  "@,
            ui::label_of("Log file"@),
            ui::span(
                match log_file {
                    Some(log) => log,
                    None => general_log(built_in),
                },
                Style::Plain,
            ),
        ),
        ui::blank(),
    ]
}

/// What is printed before a workspace is saved.
pub fn print_workspace_summary(name: &str, dir: &str, log_file: Option<&str>, built_in: &str) -> (r: Vec<Line>)
    ensures
        r.deep_view() == summary_lines(name@, dir@, log_file.deep_view(), built_in@),
{
    let mut lines: Vec<Line> = Vec::new();
    ui::put_blank(&mut lines);
    names::put(&mut lines, Line::one("  ", ui::title("Summary")));
    names::put(&mut lines, Line::two("  ", ui::label("Workspace"), ui::name(name)));
    names::put(&mut lines, Line::two("  ", ui::label("Directory"), ui::path(dir)));
    let log = match log_file {
        Some(log) => log.to_owned(),
        None => general_log_text(built_in),
    };
    names::put(&mut lines, Line::two("  ", ui::label("Log file"), ui::plain(log.as_str())));
    ui::put_blank(&mut lines);
    assert(lines.deep_view() =~= summary_lines(name@, dir@, log_file.deep_view(), built_in@));
    lines
}

/// The names of the saved workspaces, as they stand.
pub open spec fn workspace_names(ws: Seq<WorkspaceModel>) -> Seq<Seq<char>> {
    Seq::new(ws.len(), |i: int| ws[i].name)
}

/// The names that are offered for a schedule: the saved ones and the current one, each once, in
/// order.
pub open spec fn offered(config: ConfigModel, current: Option<Seq<char>>, shown: Seq<Seq<char>>) -> bool {
    names::distinct_from(
        workspace_names(config.workspaces) + (match current {
            Some(name) => seq![name],
            None => Seq::empty(),
        }),
        shown,
    )
}

/// Where a name stands in a list, or the start of the list where it does not.
pub open spec fn place_of(shown: Seq<Seq<char>>, name: Option<Seq<char>>, i: int) -> bool {
    match name {
        Some(name) => if shown.contains(name) {
            0 <= i < shown.len() && shown[i] == name && !shown.subrange(0, i).contains(name)
        } else {
            i == 0
        },
        None => i == 0,
    }
}

/// The question for the workspace of a schedule, where there is one to offer. The last choice is the
/// current directory.
pub fn prompt_choice(config: &RuntimeConfigFile, current: Option<&str>) -> (r: Option<Menu>)
    ensures
        exists|shown: Seq<Seq<char>>|
            {
                &&& #[trigger] offered(config@, current.deep_view(), shown)
                &&& r is Some <==> shown.len() > 0
                &&& r matches Some(menu) ==> {
                    &&& menu@.heading == Seq::<Seq<SpanModel>>::empty()
                    &&& menu@.prompt == "Workspace"@
                    &&& menu@.choices == shown.push("Use current --dir as default workspace"@)
                    &&& place_of(shown, current.deep_view(), menu.default as int)
                }
            },
{
    let ghost all = config@.workspaces;
    let mut shown: Vec<String> = Vec::new();
    let mut i: usize = 0;
    while i < config.workspaces.len()
        invariant
            i <= config.workspaces.len(),
            all == config.workspaces.deep_view(),
            shown.deep_view() == workspace_names(all.subrange(0, i as int)),
        decreases config.workspaces.len() - i,
    {
        assert(all[i as int] == config.workspaces@[i as int]@);
        names::put(&mut shown, config.workspaces[i].name.clone());
        assert(shown.deep_view() =~= workspace_names(all.subrange(0, i + 1)));
        i = i + 1;
    }
    assert(all.subrange(0, all.len() as int) =~= all);
    if let Some(name) = current {
        names::put(&mut shown, name.to_owned());
    }
    proof {
        let extra = match current {
            Some(name) => seq![name@],
            None => Seq::<Seq<char>>::empty(),
        };
        assert(shown.deep_view() =~= workspace_names(all) + extra);
    }
    names::sort_distinct(&mut shown);
    let ghost models = shown.deep_view();
    assert(offered(config@, current.deep_view(), models));
    if shown.len() == 0 {
        return None;
    }
    let default: usize = match current {
        Some(name) => match names::position(&shown, name) {
            Some(k) => {
                proof {
                    assert(models[k as int] == name@);
                    let front = models.subrange(0, k as int);
                    if front.contains(name@) {
                        let j = choose|j: int| 0 <= j < front.len() && front[j] == name@;
                        assert(names::has_name::<String>(front, name@));
                    }
                }
                k
            },
            None => {
                proof {
                    if models.contains(name@) {
                        let j = choose|j: int| 0 <= j < models.len() && models[j] == name@;
                        assert(names::has_name::<String>(models, name@));
                    }
                }
                0
            },
        },
        None => 0,
    };
    names::put(&mut shown, "Use current --dir as default workspace".to_owned());
    let heading: Vec<Line> = Vec::new();
    assert(heading.deep_view() =~= Seq::empty());
    Some(Menu { heading, prompt: "Workspace".to_owned(), choices: shown, default })
}

/// The workspace that stands for the current settings.
pub open spec fn current_workspace(settings: CliModel) -> WorkspaceModel {
    WorkspaceModel { name: "default"@, dir: settings.dir, log_file: Some(settings.log_file) }
}

/// Saves the current settings as the workspace of the usual name.
pub fn use_current_dir(cli: &Cli, config: &mut RuntimeConfigFile) -> (r: String)
    ensures
        r@ == "default"@,
        old(config)@.with_workspace(current_workspace(cli@), final(config)@),
{
    config.upsert_workspace(
        WorkspaceConfig {
            name: "default".to_owned(),
            dir: cli.dir.clone(),
            log_file: Some(cli.log_file.clone()),
        },
    );
    "default".to_owned()
}

/// The workspace that was chosen: the last choice stands for the current directory.
pub open spec fn choice_taken(choices: Seq<Seq<char>>, answer: MenuAction) -> Option<Seq<char>> {
    match answer {
        MenuAction::Back => None,
        MenuAction::Selected(i) => if i < choices.len() - 1 {
            Some(choices[i as int])
        } else {
            Some("default"@)
        },
    }
}

/// The configuration after the choice: the current directory is saved where it was chosen.
pub open spec fn config_after_choice(
    config: ConfigModel,
    settings: CliModel,
    choices: Seq<Seq<char>>,
    answer: MenuAction,
    next: ConfigModel,
) -> bool {
    match answer {
        MenuAction::Back => next == config,
        MenuAction::Selected(i) => if i < choices.len() - 1 {
            next == config
        } else {
            config.with_workspace(current_workspace(settings), next)
        },
    }
}

/// Takes in the answer to [`prompt_choice`], whose choices are `choices`: the workspace that was
/// chosen, or nothing where the person went back.
pub fn take_choice(cli: &Cli, config: &mut RuntimeConfigFile, choices: &Vec<String>, answer: MenuAction) -> (r: Option<String>)
    requires
        choices.len() > 0,
    ensures
        r.deep_view() == choice_taken(choices.deep_view(), answer),
        config_after_choice(old(config)@, cli@, choices.deep_view(), answer, final(config)@),
        answer is Back ==> *final(config) == *old(config),
        answer matches MenuAction::Selected(i) ==> i < choices.deep_view().len() - 1 ==> *final(config) == *old(config),
{
    match answer {
        MenuAction::Back => None,
        MenuAction::Selected(i) => {
            if i < choices.len() - 1 {
                assert(choices.deep_view()[i as int] == choices@[i as int]@);
                Some(choices[i].clone())
            } else {
                Some(use_current_dir(cli, config))
            }
        },
    }
}

/// The name that a new workspace is offered: the usual one, or the first free numbered one.
pub open spec fn new_name(config: ConfigModel, name: Seq<char>) -> bool {
    if config.has_workspace("default"@) {
        exists|k: nat|
            name == names::numbered("workspace-"@, k) && #[trigger] names::first_free::<WorkspaceConfig>(
                config.workspaces,
                "workspace-"@,
                k,
            )
    } else {
        name == "default"@
    }
}

/// The name that a new workspace is offered.
pub fn default_new_workspace_name(config: &RuntimeConfigFile) -> (r: String)
    ensures
        new_name(config@, r@),
{
    names::fresh_name(&config.workspaces, "default", "workspace-")
}

/// The name that a new workspace is offered is not taken, and it is a valid one.
pub proof fn lemma_offered_name_is_free_and_valid(config: ConfigModel, name: Seq<char>)
    requires
        new_name(config, name),
        config.workspaces.len() < 0x1_0000_0000_0000_0000,
    ensures
        !config.has_workspace(name),
        defaults::valid_name(name),
{
    if config.has_workspace("default"@) {
        let k = choose|k: nat|
            name == names::numbered("workspace-"@, k) && #[trigger] names::first_free::<WorkspaceConfig>(
                config.workspaces,
                "workspace-"@,
                k,
            );
        names::lemma_first_free_is_near::<WorkspaceConfig>(config.workspaces, "workspace-"@, k);
        defaults::lemma_offered_names_are_valid(k);
    } else {
        defaults::lemma_offered_names_are_valid(2);
    }
}

/// Each schedule runs a workspace that there is.
pub open spec fn schedules_have_workspaces(config: ConfigModel) -> bool {
    forall|i: int| 0 <= i < config.schedules.len() ==> config.has_workspace((#[trigger] config.schedules[i]).workspace)
}

proof fn lemma_no_users(schedules: Seq<ScheduleModel>, workspace: Seq<char>, i: int)
    requires
        users(schedules, workspace).len() == 0,
        0 <= i < schedules.len(),
    ensures
        schedules[i].workspace != workspace,
    decreases schedules.len(),
{
    if i < schedules.len() - 1 {
        lemma_no_users(schedules.drop_last(), workspace, i);
    }
}

proof fn lemma_some_user(schedules: Seq<ScheduleModel>, workspace: Seq<char>, i: int)
    requires
        0 <= i < schedules.len(),
        schedules[i].workspace == workspace,
    ensures
        users(schedules, workspace).len() > 0,
    decreases schedules.len(),
{
    if i < schedules.len() - 1 {
        lemma_some_user(schedules.drop_last(), workspace, i);
    }
}

/// A workspace that a schedule runs is not removed.
pub proof fn lemma_used_workspace_stays(config: ConfigModel, i: int)
    requires
        0 <= i < config.schedules.len(),
    ensures
        removal_complaint(config, config.schedules[i].workspace) is Some,
{
    lemma_some_user(config.schedules, config.schedules[i].workspace, i);
}

proof fn lemma_has_from_class(config: ConfigModel, next: ConfigModel, name: Seq<char>)
    requires
        config.has_workspace(name),
        names::with_name::<WorkspaceConfig>(next.workspaces, name) == names::with_name::<WorkspaceConfig>(
            config.workspaces,
            name,
        ),
    ensures
        next.has_workspace(name),
{
    names::lemma_has_name_is_a_class::<WorkspaceConfig>(config.workspaces, name);
    names::lemma_has_name_is_a_class::<WorkspaceConfig>(next.workspaces, name);
}

/// Neither the removal of a workspace nor a new or changed one leaves a schedule without its
/// workspace.
pub proof fn lemma_schedules_keep_their_workspaces(config: ConfigModel, w: WorkspaceModel, next: ConfigModel, name: Seq<char>)
    requires
        schedules_have_workspaces(config),
        config.with_workspace(w, next),
    ensures
        schedules_have_workspaces(next),
        removal_complaint(config, name) is None ==> schedules_have_workspaces(config.without_workspace(name)),
{
    assert forall|i: int| 0 <= i < next.schedules.len() implies next.has_workspace(
        (#[trigger] next.schedules[i]).workspace,
    ) by {
        let used = config.schedules[i].workspace;
        crate::config::lemma_saved_workspace_is_found(config, w, next, used);
        if used != w.name {
            lemma_has_from_class(config, next, used);
        }
    }
    if removal_complaint(config, name) is None {
        let rest = config.without_workspace(name);
        assert forall|i: int| 0 <= i < rest.schedules.len() implies rest.has_workspace(
            (#[trigger] rest.schedules[i]).workspace,
        ) by {
            let used = config.schedules[i].workspace;
            lemma_no_users(config.schedules, name, i);
            crate::config::lemma_removed_workspace_is_gone(config, name, used);
            lemma_has_from_class(config, rest, used);
        }
    }
}

} // verus!
