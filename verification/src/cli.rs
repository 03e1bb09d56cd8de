//! The command line: what was asked for, and how saved settings fill the gaps.
use crate::config::{ConfigModel, RuntimeConfigFile, WorkspaceModel};
use crate::defaults;
use crate::error::{Error, ErrorModel};
use crate::gc;
use crate::names;
use crate::platform::{Host, Report, SchedulerWatch};
use crate::platform_scheduler;
use crate::schedule;
use crate::schedule_names;
use crate::text;
use crate::ui;
use crate::ui::{Line, Menu, MenuModel, SpanModel, Style};
use crate::workspace;
use std::str::FromStr;
use vstd::prelude::*;

verus! {

/// How many records of the history are shown.
#[derive(Debug, Clone, Copy, PartialEq, Eq, Structural)]
pub enum HistoryLast {
    Count(usize),
    All,
}

/// What a request for so many records says, or the words for why it says nothing.
pub open spec fn history_last(value: Seq<char>) -> Result<HistoryLast, Seq<char>> {
    if text::same_ignoring_case(value, "all"@) {
        Ok(HistoryLast::All)
    } else {
        match text::parse_number(value, usize::MAX as nat) {
            Some(count) => Ok(HistoryLast::Count(count as usize)),
            None => Err("invalid value '"@ + value + "': expected a positive integer or 'all'"@),
        }
    }
}

impl HistoryLast {
    /// Reads `all` in any case, or a number.
    pub fn parse_request(value: &str) -> (r: Result<HistoryLast, String>)
        ensures
            (match r {
                Ok(last) => Ok(last),
                Err(e) => Err(e@),
            }) == history_last(value@),
    {
        if text::eq_ignore_case(value, "all") {
            return Ok(HistoryLast::All);
        }
        match text::parse_unsigned(value, usize::MAX as u128) {
            Some(count) => Ok(HistoryLast::Count(count as usize)),
            None => {
                let mut e = "invalid value '".to_owned();
                e.append(value);
                e.append("': expected a positive integer or 'all'");
                Err(e)
            },
        }
    }
}

impl FromStr for HistoryLast {
    type Err = String;

    fn from_str(value: &str) -> (r: Result<HistoryLast, String>)
        ensures
            (match r {
                Ok(last) => Ok(last),
                Err(e) => Err(e@),
            }) == history_last(value@),
    {
        HistoryLast::parse_request(value)
    }
}

/// What `config` does.
#[derive(Debug)]
pub enum ConfigAction {
    SetDefaults,
    Unset { field: ConfigField },
}

/// A saved setting.
#[derive(Debug, Clone, Copy, PartialEq, Eq, Structural)]
pub enum ConfigField {
    Dir,
    LogFile,
    All,
}

/// What `schedule` does.
#[derive(Debug)]
pub enum ScheduleAction {
    Install { name: String, hour: u8, minute: u8 },
    Uninstall { name: String, all: bool },
    List,
}

/// What `workspace` does.
#[derive(Debug)]
pub enum WorkspaceAction {
    Add { name: String, dir: String },
    Remove { name: String },
    List,
}

/// What was asked for. Without an action `schedule` and `workspace` ask back.
#[derive(Debug)]
pub enum Commands {
    Run,
    Config { action: Option<ConfigAction> },
    Schedule { action: Option<ScheduleAction> },
    Workspace { action: Option<WorkspaceAction> },
    History { last: HistoryLast, action: Option<String>, repo: Option<String> },
    Update { check: bool },
}

/// The command line, with defaults where nothing was given.
#[derive(Debug)]
pub struct Cli {
    pub command: Option<Commands>,
    pub dir: String,
    pub dry_run: bool,
    pub verbose: bool,
    pub log_file: String,
    pub workspace: Option<String>,
}

/// The settings of a [`Cli`].
#[verifier::ext_equal]
pub struct CliModel {
    pub dir: Seq<char>,
    pub dry_run: bool,
    pub verbose: bool,
    pub log_file: Seq<char>,
    pub workspace: Option<Seq<char>>,
}

impl View for Cli {
    type V = CliModel;

    open spec fn view(&self) -> CliModel {
        CliModel {
            dir: self.dir@,
            dry_run: self.dry_run,
            verbose: self.verbose,
            log_file: self.log_file@,
            workspace: self.workspace.deep_view(),
        }
    }
}

/// Whether the program was called by its name alone.
pub fn should_open_interactive_menu(args: &Vec<String>) -> (r: bool)
    ensures
        r == (args.deep_view().len() <= 1),
{
    args.len() <= 1
}

/// The letter of an option that takes no value, so that another one may follow it in one argument.
pub open spec fn is_flag(c: char) -> bool {
    c == 'n' || c == 'v'
}

/// The argument gives the short option: behind one dash stand only flags before the letter of the
/// option. What follows the letter is its value.
pub open spec fn gives_short(arg: Seq<char>, short: Seq<char>) -> bool {
    &&& short.len() == 2 && short[0] == '-' && short[1] != '-'
    &&& arg.len() >= 2 && arg[0] == '-'
    &&& exists|i: int|
        1 <= i < arg.len() && #[trigger] arg[i] == short[1] && forall|j: int| 1 <= j < i ==> is_flag(#[trigger] arg[j])
}

/// The argument is the option: in its short form, alone or with flags before it and a value behind
/// it, in its long form, or in its long form with a value.
pub open spec fn is_option(arg: Seq<char>, short: Option<Seq<char>>, long: Seq<char>) -> bool {
    ||| short matches Some(short) && (arg == short || gives_short(arg, short))
    ||| arg == long
    ||| text::has_prefix(arg, long + "="@)
}

/// Whether the argument gives the short option.
fn has_short(arg: &str, short: &str) -> (r: bool)
    ensures
        r == (arg@ == short@ || gives_short(arg@, short@)),
{
    if text::same(arg, short) {
        return true;
    }
    let letters = text::chars_of(arg);
    let option = text::chars_of(short);
    if option.len() != 2 || option[0] != '-' || option[1] == '-' || letters.len() < 2 || letters[0] != '-' {
        return false;
    }
    let mut i: usize = 1;
    while i < letters.len()
        invariant
            letters@ == arg@,
            option@ == short@,
            option.len() == 2 && option[0] == '-' && option[1] != '-',
            letters.len() >= 2 && letters[0] == '-',
            1 <= i <= letters.len(),
            forall|j: int| 1 <= j < i ==> is_flag(#[trigger] arg@[j]) && arg@[j] != short@[1],
        decreases letters.len() - i,
    {
        if letters[i] == option[1] {
            assert(arg@[i as int] == short@[1]);
            return true;
        }
        if letters[i] != 'n' && letters[i] != 'v' {
            assert(!is_flag(arg@[i as int]) && arg@[i as int] != short@[1]);
            return false;
        }
        i = i + 1;
    }
    false
}

/// The option is among the arguments behind the name of the program.
pub open spec fn option_given(args: Seq<Seq<char>>, short: Option<Seq<char>>, long: Seq<char>) -> bool {
    exists|i: int| 1 <= i < args.len() && is_option(#[trigger] args[i], short, long)
}

/// Whether the option is among the arguments behind the name of the program.
pub fn has_cli_option(args: &Vec<String>, short: Option<&str>, long: &str) -> (r: bool)
    ensures
        r == option_given(args.deep_view(), short.deep_view(), long@),
{
    let mut with_value = long.to_owned();
    with_value.append("=");
    let mut i: usize = 1;
    while i < args.len()
        invariant
            1 <= i,
            with_value@ == long@ + "="@,
            forall|j: int| 1 <= j < i && j < args.len() ==> !is_option(#[trigger] args.deep_view()[j], short.deep_view(), long@),
        decreases args.len() - i,
    {
        let arg = args[i].as_str();
        let is_short = match short {
            Some(short) => has_short(arg, short),
            None => false,
        };
        assert(args.deep_view()[i as int] == arg@);
        if is_short || text::same(arg, long) || text::starts_with(arg, with_value.as_str()) {
            assert(is_option(args.deep_view()[i as int], short.deep_view(), long@));
            return true;
        }
        i = i + 1;
    }
    false
}

/// However an option is written, it counts as given: in its long form, with a value behind `=`, and
/// in its short form behind flags and with a value right behind its letter.
pub proof fn lemma_every_spelling_counts(
    args: Seq<Seq<char>>,
    i: int,
    letter: char,
    long: Seq<char>,
    flags: Seq<char>,
    value: Seq<char>,
)
    requires
        1 <= i < args.len(),
        letter != '-',
        forall|j: int| 0 <= j < flags.len() ==> is_flag(#[trigger] flags[j]),
        args[i] == long || args[i] == long + "="@ + value || args[i] == seq!['-'] + flags + seq![letter] + value,
    ensures
        option_given(args, Some(seq!['-', letter]), long),
{
    let short = seq!['-', letter];
    let arg = args[i];
    reveal_strlit("=");
    if arg == long + "="@ + value {
        assert(arg.subrange(0, (long + "="@).len() as int) =~= long + "="@);
    } else if arg != long {
        let k = 1 + flags.len() as int;
        assert(arg[k] == letter);
        assert forall|j: int| 1 <= j < k implies is_flag(#[trigger] arg[j]) by {
            assert(arg[j] == flags[j - 1]);
        }
        assert(gives_short(arg, short));
    }
    assert(is_option(args[i], Some(short), long));
}

/// The directory was given on the command line.
pub open spec fn dir_given(args: Seq<Seq<char>>) -> bool {
    option_given(args, Some("-d"@), "--dir"@)
}

/// The log file was given on the command line.
pub open spec fn log_given(args: Seq<Seq<char>>) -> bool {
    option_given(args, None, "--log-file"@)
}

/// Whether the directory was given on the command line.
pub fn gives_dir(args: &Vec<String>) -> (r: bool)
    ensures
        r == dir_given(args.deep_view()),
{
    has_cli_option(args, Some("-d"), "--dir")
}

/// Whether the log file was given on the command line.
pub fn gives_log(args: &Vec<String>) -> (r: bool)
    ensures
        r == log_given(args.deep_view()),
{
    has_cli_option(args, None, "--log-file")
}

/// What is wrong with a request for a workspace.
pub open spec fn workspace_complaint(config: ConfigModel, workspace: Option<Seq<char>>) -> Option<Seq<char>> {
    match workspace {
        None => None,
        Some(name) => match defaults::name_problem("workspace"@, name) {
            Some(complaint) => Some(complaint),
            None => if config.has_workspace(name) {
                None
            } else {
                Some("Workspace not found: "@ + name)
            },
        },
    }
}

/// `w` is the workspace that was asked for, if one was.
pub open spec fn requested(config: ConfigModel, workspace: Option<Seq<char>>, w: Option<WorkspaceModel>) -> bool {
    match workspace {
        None => w is None,
        Some(name) => w is Some && config.finds(name, w->0),
    }
}

/// A setting: what was given, else what the workspace says, else what is saved, else the built-in
/// default, which stands where nothing was given.
pub open spec fn setting(
    current: Seq<char>,
    given: bool,
    of_workspace: Option<Seq<char>>,
    saved: Option<Seq<char>>,
) -> Seq<char> {
    if given {
        current
    } else {
        match (of_workspace, saved) {
            (Some(value), _) => value,
            (None, Some(value)) => value,
            (None, None) => current,
        }
    }
}

impl CliModel {
    /// The settings with the saved ones where none were given.
    pub open spec fn completed(
        self,
        config: ConfigModel,
        w: Option<WorkspaceModel>,
        dir_explicit: bool,
        log_explicit: bool,
    ) -> CliModel {
        CliModel {
            dir: setting(
                self.dir,
                dir_explicit,
                match w {
                    Some(w) => Some(w.dir),
                    None => None,
                },
                config.dir,
            ),
            log_file: setting(
                self.log_file,
                log_explicit,
                match w {
                    Some(w) => w.log_file,
                    None => None,
                },
                config.log_file,
            ),
            ..self
        }
    }
}

/// Accepts the name of a saved workspace, or says what is wrong with it.
pub fn check_workspace(config: &RuntimeConfigFile, name: &str) -> (r: Result<(), Error>)
    ensures
        gc::done_model(r) == (match workspace_complaint(config@, Some(name@)) {
            Some(complaint) => Err(ErrorModel::plain(complaint)),
            None => Ok(()),
        }),
{
    match defaults::validate_registration_name("workspace", name) {
        Ok(()) => {},
        Err(e) => return Err(e),
    }
    if config.find_workspace(name).is_none() {
        let mut text = "Workspace not found: ".to_owned();
        text.append(name);
        return Err(Error::new(text));
    }
    Ok(())
}

/// The settings with what is saved put in, where it was not given on the command line or in the
/// environment.
pub open spec fn settled(
    before: CliModel,
    args: Seq<Seq<char>>,
    config: ConfigModel,
    env_dir_set: bool,
    env_log_set: bool,
    after: CliModel,
) -> bool {
    exists|w: Option<WorkspaceModel>| #[trigger]
        requested(config, before.workspace, w) && after == before.completed(
            config,
            w,
            dir_given(args) || env_dir_set,
            log_given(args) || env_log_set,
        )
}

/// Fills the settings that were not given from the workspace that was asked for and from the saved
/// defaults. A refused workspace changes nothing.
pub fn apply_runtime_config_values(
    cli: &mut Cli,
    args: &Vec<String>,
    config: &RuntimeConfigFile,
    env_dir_set: bool,
    env_log_set: bool,
) -> (r: Result<(), Error>)
    ensures
        gc::done_model(r) == (match workspace_complaint(config@, old(cli)@.workspace) {
            Some(complaint) => Err(ErrorModel::plain(complaint)),
            None => Ok(()),
        }),
        r is Err ==> *final(cli) == *old(cli),
        r is Ok ==> final(cli).command == old(cli).command && settled(
            old(cli)@,
            args.deep_view(),
            config@,
            env_dir_set,
            env_log_set,
            final(cli)@,
        ),
{
    let dir_explicit = gives_dir(args) || env_dir_set;
    let log_explicit = gives_log(args) || env_log_set;
    let workspace = match &cli.workspace {
        Some(name) => {
            match check_workspace(config, name.as_str()) {
                Ok(()) => {},
                Err(e) => return Err(e),
            }
            config.find_workspace(name.as_str())
        },
        None => None,
    };
    let ghost w: Option<WorkspaceModel> = match workspace {
        Some(w) => Some(w@),
        None => None,
    };
    assert(requested(config@, cli@.workspace, w));
    if !dir_explicit {
        if let Some(workspace) = workspace {
            cli.dir = workspace.dir.clone();
        } else if let Some(dir) = &config.dir {
            cli.dir = dir.clone();
        }
    }
    if !log_explicit {
        let of_workspace = match workspace {
            Some(workspace) => &workspace.log_file,
            None => &None,
        };
        if let Some(log_file) = of_workspace {
            cli.log_file = log_file.clone();
        } else if let Some(log_file) = &config.log_file {
            cli.log_file = log_file.clone();
        }
    }
    assert(cli@ =~= old(cli)@.completed(config@, w, dir_explicit, log_explicit));
    Ok(())
}

/// What was given beats what is saved, which beats the built-in default; and of what is saved the
/// workspace that was asked for beats the general defaults.
pub proof fn lemma_given_beats_saved_beats_built_in(
    cli: CliModel,
    config: ConfigModel,
    w: Option<WorkspaceModel>,
    dir_explicit: bool,
    log_explicit: bool,
)
    ensures
        ({
            let done = cli.completed(config, w, dir_explicit, log_explicit);
            &&& dir_explicit ==> done.dir == cli.dir
            &&& !dir_explicit && w is Some ==> done.dir == w->0.dir
            &&& !dir_explicit && w is None && config.dir is Some ==> done.dir == config.dir->0
            &&& !dir_explicit && w is None && config.dir is None ==> done.dir == cli.dir
            &&& log_explicit ==> done.log_file == cli.log_file
            &&& !log_explicit && w is Some && w->0.log_file is Some ==> done.log_file == w->0.log_file->0
            &&& !log_explicit && (w is None || w->0.log_file is None) && config.log_file is Some ==> done.log_file
                == config.log_file->0
            &&& !log_explicit && (w is None || w->0.log_file is None) && config.log_file is None ==> done.log_file
                == cli.log_file
            &&& done.dry_run == cli.dry_run && done.verbose == cli.verbose && done.workspace == cli.workspace
        }),
{
}

/// What the program does first.
#[derive(Debug)]
pub enum Startup {
    Execute(Commands),
    OpenMenu,
}

/// What the program does first: what was asked for; without a command, a cleanup, or the menu
/// where the program was called by its name alone.
pub open spec fn first_step(command: Option<Commands>, args: Seq<Seq<char>>) -> Startup {
    match command {
        Some(command) => Startup::Execute(command),
        None => if args.len() <= 1 {
            Startup::OpenMenu
        } else {
            Startup::Execute(Commands::Run)
        },
    }
}

/// What the program does first.
pub fn startup(command: Option<Commands>, args: &Vec<String>) -> (r: Startup)
    ensures
        r == first_step(command, args.deep_view()),
{
    match command {
        Some(command) => Startup::Execute(command),
        None => if should_open_interactive_menu(args) {
            Startup::OpenMenu
        } else {
            Startup::Execute(Commands::Run)
        },
    }
}

/// The menu of commands.
pub open spec fn command_menu_model(dry_run: bool) -> MenuModel {
    MenuModel {
        heading: seq![
            ui::blank(),
            ui::one("  "@, ui::span("worktree-gc"@, Style::Title)),
            ui::one("  "@, ui::span("Select a command"@, Style::Subtitle)),
        ] + (if dry_run {
            seq![ui::two("  "@, ui::label_of("Run mode"@), ui::span("dry-run"@, Style::Warning))]
        } else {
            Seq::empty()
        }) + seq![ui::blank()],
        prompt: "Choose a command"@,
        choices: seq![
            if dry_run {
                "Run cleanup now (--dry-run)"@
            } else {
                "Run cleanup now"@
            },
            "Manage schedule"@,
            "Manage workspaces"@,
            "Show history"@,
            "Show config"@,
            "Cancel"@,
        ],
        default: 0,
    }
}

/// The menu of commands.
pub fn command_menu(dry_run: bool) -> (r: Menu)
    ensures
        r@ == command_menu_model(dry_run),
{
    let mut heading: Vec<Line> = Vec::new();
    ui::put_blank(&mut heading);
    names::put(&mut heading, Line::one("  ", ui::title("worktree-gc")));
    names::put(&mut heading, Line::one("  ", ui::subtitle("Select a command")));
    if dry_run {
        names::put(&mut heading, Line::two("  ", ui::label("Run mode"), ui::warning("dry-run")));
    }
    ui::put_blank(&mut heading);
    let mut choices: Vec<String> = Vec::new();
    names::put(
        &mut choices,
        (if dry_run { "Run cleanup now (--dry-run)" } else { "Run cleanup now" }).to_owned(),
    );
    names::put(&mut choices, "Manage schedule".to_owned());
    names::put(&mut choices, "Manage workspaces".to_owned());
    names::put(&mut choices, "Show history".to_owned());
    names::put(&mut choices, "Show config".to_owned());
    names::put(&mut choices, "Cancel".to_owned());
    let r = Menu { heading, prompt: "Choose a command".to_owned(), choices, default: 0 };
    assert(r@.heading =~= command_menu_model(dry_run).heading);
    assert(r@.choices =~= command_menu_model(dry_run).choices);
    r
}

/// The command behind a choice of the menu of commands, or nothing where the menu is left.
pub open spec fn command_behind(selection: usize) -> Option<Commands> {
    if selection == 0 {
        Some(Commands::Run)
    } else if selection == 1 {
        Some(Commands::Schedule { action: None })
    } else if selection == 2 {
        Some(Commands::Workspace { action: None })
    } else if selection == 3 {
        Some(Commands::History { last: HistoryLast::Count(10), action: None, repo: None })
    } else if selection == 4 {
        Some(Commands::Config { action: None })
    } else {
        None
    }
}

/// The command behind a choice of [`command_menu`], or nothing where the menu is left.
pub fn interactive_command_menu(selection: usize) -> (r: Option<Commands>)
    ensures
        r == command_behind(selection),
{
    match selection {
        0 => Some(Commands::Run),
        1 => Some(Commands::Schedule { action: None }),
        2 => Some(Commands::Workspace { action: None }),
        3 => Some(Commands::History { last: HistoryLast::Count(10), action: None, repo: None }),
        4 => Some(Commands::Config { action: None }),
        _ => None,
    }
}

/// A cleanup asks for its workspace first where the program was called by its name alone and no
/// workspace is set.
pub open spec fn asks_for_workspace(settings: CliModel, args: Seq<Seq<char>>) -> bool {
    args.len() <= 1 && settings.workspace is None
}

/// Whether a cleanup asks for its workspace first: where the program was called by its name alone
/// and no workspace is set.
pub fn run_gc_from_command(cli: &Cli, args: &Vec<String>) -> (r: bool)
    ensures
        r == asks_for_workspace(cli@, args.deep_view()),
{
    should_open_interactive_menu(args) && cli.workspace.is_none()
}

/// The saved defaults after `config set`.
pub open spec fn with_settings(config: ConfigModel, cli: CliModel, set_dir: bool, set_log: bool) -> ConfigModel {
    ConfigModel {
        dir: if set_dir { Some(cli.dir) } else { config.dir },
        log_file: if set_log { Some(cli.log_file) } else { config.log_file },
        ..config
    }
}

/// What is printed after `config set`.
pub open spec fn settings_lines(cli: CliModel, set_dir: bool, set_log: bool, config_path: Seq<char>) -> Seq<Seq<SpanModel>> {
    seq![ui::one(""@, ui::span("Saved runtime defaults"@, Style::Success))] + (if set_dir {
        seq![ui::two("  "@, ui::label_of("Work dir"@), ui::span(cli.dir, Style::Path))]
    } else {
        Seq::empty()
    }) + (if set_log {
        seq![ui::two("  "@, ui::label_of("Log file"@), ui::span(cli.log_file, Style::Path))]
    } else {
        Seq::empty()
    }) + seq![ui::two("  "@, ui::label_of("Config"@), ui::span(config_path, Style::Path))]
}

/// The lines to print and the error, as their models.
pub open spec fn lines_model(r: Result<Vec<Line>, Error>) -> Result<Seq<Seq<SpanModel>>, ErrorModel> {
    match r {
        Ok(lines) => Ok(lines.deep_view()),
        Err(e) => Err(e@),
    }
}

/// What `config set` answers: what it saved, or an error where it was given nothing to save.
pub open spec fn setting_answer(cli: CliModel, args: Seq<Seq<char>>, config_path: Seq<char>) -> Result<
    Seq<Seq<SpanModel>>,
    ErrorModel,
> {
    if dir_given(args) || log_given(args) {
        Ok(settings_lines(cli, dir_given(args), log_given(args), config_path))
    } else {
        Err(
            ErrorModel::plain(
                "Specify at least one setting to save, e.g. `worktree-gc config set -d /path/to/repos`"@,
            ),
        )
    }
}

/// The configuration after `config set` with the arguments.
pub open spec fn after_setting(config: ConfigModel, cli: CliModel, args: Seq<Seq<char>>) -> ConfigModel {
    with_settings(config, cli, dir_given(args), log_given(args))
}

/// Takes the settings that were given on the command line into the saved defaults, and says what is
/// printed once they are saved.
pub fn set_runtime_config(
    cli: &Cli,
    args: &Vec<String>,
    config: &mut RuntimeConfigFile,
    config_path: &str,
) -> (r: Result<Vec<Line>, Error>)
    ensures
        lines_model(r) == setting_answer(cli@, args.deep_view(), config_path@),
        final(config)@ == after_setting(old(config)@, cli@, args.deep_view()),
{
    let set_dir = gives_dir(args);
    let set_log = gives_log(args);
    if !set_dir && !set_log {
        return Err(
            Error::new(
                "Specify at least one setting to save, e.g. `worktree-gc config set -d /path/to/repos`".to_owned(),
            ),
        );
    }
    let mut lines: Vec<Line> = Vec::new();
    names::put(&mut lines, Line::one("", ui::success("Saved runtime defaults")));
    if set_dir {
        config.dir = Some(cli.dir.clone());
        names::put(&mut lines, Line::two("  ", ui::label("Work dir"), ui::path(cli.dir.as_str())));
    }
    if set_log {
        config.log_file = Some(cli.log_file.clone());
        names::put(&mut lines, Line::two("  ", ui::label("Log file"), ui::path(cli.log_file.as_str())));
    }
    names::put(&mut lines, Line::two("  ", ui::label("Config"), ui::path(config_path)));
    assert(lines.deep_view() =~= settings_lines(cli@, set_dir, set_log, config_path@));
    Ok(lines)
}

/// The saved defaults without a setting.
pub open spec fn without_setting(config: ConfigModel, field: ConfigField) -> ConfigModel {
    ConfigModel {
        dir: if field is LogFile { config.dir } else { None },
        log_file: if field is Dir { config.log_file } else { None },
        ..config
    }
}

/// What is printed once a setting is removed.
pub open spec fn removal_words(field: ConfigField) -> Seq<char> {
    match field {
        ConfigField::Dir => "Removed saved work directory default."@,
        ConfigField::LogFile => "Removed saved log file default."@,
        ConfigField::All => "Removed all saved runtime defaults."@,
    }
}

/// Removes a setting from the saved defaults, and says what is printed once that is saved.
pub fn unset_runtime_config(field: ConfigField, config: &mut RuntimeConfigFile) -> (r: Line)
    ensures
        final(config)@ == without_setting(old(config)@, field),
        r@ == ui::one(""@, ui::span(removal_words(field), Style::Success)),
{
    match field {
        ConfigField::Dir => {
            config.dir = None;
            Line::one("", ui::success("Removed saved work directory default."))
        },
        ConfigField::LogFile => {
            config.log_file = None;
            Line::one("", ui::success("Removed saved log file default."))
        },
        ConfigField::All => {
            config.dir = None;
            config.log_file = None;
            Line::one("", ui::success("Removed all saved runtime defaults."))
        },
    }
}

/// A default that was saved with `config set` is the one that applies afterwards, unless another
/// one is given or a workspace is asked for.
pub proof fn lemma_saved_default_applies(config: ConfigModel, saved_from: CliModel, later: CliModel)
    ensures
        later.completed(with_settings(config, saved_from, true, false), None, false, false).dir == saved_from.dir,
        later.completed(with_settings(config, saved_from, false, true), None, false, false).log_file
            == saved_from.log_file,
{
}

/// Removing what was saved leaves the defaults as if it had never been saved.
pub proof fn lemma_unset_undoes_set(config: ConfigModel, cli: CliModel)
    requires
        config.dir is None,
        config.log_file is None,
    ensures
        without_setting(with_settings(config, cli, true, true), ConfigField::All) == config,
        without_setting(with_settings(config, cli, true, false), ConfigField::Dir) == config,
        without_setting(with_settings(config, cli, false, true), ConfigField::LogFile) == config,
{
}

/// A saved setting, as it is shown.
pub open spec fn saved_setting(value: Option<Seq<char>>) -> SpanModel {
    match value {
        Some(value) => ui::span(value, Style::Path),
        None => ui::span("(not set)"@, Style::Muted),
    }
}

/// The lines about the settings, the saved defaults, the workspaces and the schedules.
pub open spec fn settings_overview(
    settings: CliModel,
    config_path: Seq<char>,
    saved: ConfigModel,
    built_in: Seq<char>,
) -> Seq<Seq<SpanModel>> {
    seq![
        ui::one(""@, ui::span("Runtime configuration"@, Style::Title)),
        ui::two("  "@, ui::label_of("Work dir"@), ui::span(settings.dir, Style::Path)),
        ui::two("  "@, ui::label_of("Dry run"@), ui::switch(settings.dry_run)),
        ui::two("  "@, ui::label_of("Verbose"@), ui::switch(settings.verbose)),
        ui::two("  "@, ui::label_of("Log file"@), ui::span(settings.log_file, Style::Path)),
        ui::two("  "@, ui::label_of("Config"@), ui::span(config_path, Style::Path)),
        ui::two("  "@, ui::label_of("Saved dir"@), saved_setting(saved.dir)),
        ui::two("  "@, ui::label_of("Saved log"@), saved_setting(saved.log_file)),
        ui::blank(),
    ] + workspace::registered(saved, built_in) + seq![ui::blank()] + schedule::registered(saved.schedules) + seq![
        ui::blank(),
    ]
}

fn saved_span(value: &Option<String>) -> (r: ui::Span)
    ensures
        r@ == saved_setting(value.deep_view()),
{
    match value {
        Some(value) => ui::path(value.as_str()),
        None => ui::muted("(not set)"),
    }
}

fn overview_lines(cli: &Cli, config_path: &str, saved: &RuntimeConfigFile, built_in: &str) -> (r: Vec<Line>)
    ensures
        r.deep_view() == settings_overview(cli@, config_path@, saved@, built_in@),
{
    let mut lines: Vec<Line> = Vec::new();
    names::put(&mut lines, Line::one("", ui::title("Runtime configuration")));
    names::put(&mut lines, Line::two("  ", ui::label("Work dir"), ui::path(cli.dir.as_str())));
    names::put(&mut lines, Line::two("  ", ui::label("Dry run"), ui::enabled(cli.dry_run)));
    names::put(&mut lines, Line::two("  ", ui::label("Verbose"), ui::enabled(cli.verbose)));
    names::put(&mut lines, Line::two("  ", ui::label("Log file"), ui::path(cli.log_file.as_str())));
    names::put(&mut lines, Line::two("  ", ui::label("Config"), ui::path(config_path)));
    names::put(&mut lines, Line::two("  ", ui::label("Saved dir"), saved_span(&saved.dir)));
    names::put(&mut lines, Line::two("  ", ui::label("Saved log"), saved_span(&saved.log_file)));
    ui::put_blank(&mut lines);
    ui::put_lines(&mut lines, workspace::print_registered(saved, built_in));
    ui::put_blank(&mut lines);
    ui::put_lines(&mut lines, schedule::print_registered(saved));
    ui::put_blank(&mut lines);
    assert(lines.deep_view() =~= settings_overview(cli@, config_path@, saved@, built_in@));
    lines
}

/// What `config` prints: the settings that apply, what is saved, and the state of the schedules as
/// `watch` found it. `built_in` is the log file that applies where none is saved.
pub fn show_config(
    cli: &Cli,
    config_path: &str,
    saved: &RuntimeConfigFile,
    built_in: &str,
    host: &Host,
    watch: &SchedulerWatch,
) -> (r: Report)
    ensures
        exists|shown: Seq<Seq<char>>|
            #[trigger] schedule_names::printable(schedule::names_of(saved@.schedules), shown) && r@
                == platform_scheduler::configuration(host@, shown, watch@).under(
                settings_overview(cli@, config_path@, saved@, built_in@),
            ),
{
    let mut lines = overview_lines(cli, config_path, saved, built_in);
    let status = platform_scheduler::print_config(host, &schedule::configured_names(saved), watch);
    ui::put_lines(&mut lines, status.lines);
    Report { lines, error: status.error }
}

} // verus!
