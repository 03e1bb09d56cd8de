//! Settings: when one counts as given, which value applies, and what is saved.
use crate::cli;
use crate::cli::{CliModel, ConfigField, HistoryLast};
use crate::config;
use crate::config::{ConfigModel, SaveModel, SavedModel, ScheduleModel, WorkspaceModel};
use crate::error::ErrorModel;
use crate::laws::schedules;
use crate::laws::texts;
use crate::text;
use crate::ui;
use crate::ui::{SpanModel, Style};
use vstd::prelude::*;

verus! {

/// The argument spells the directory: `--dir`, `--dir=` and a value, or one dash, flags, the letter
/// `d`, and perhaps a value.
pub open spec fn spells_dir(arg: Seq<char>) -> bool {
    ||| arg == seq!['-', '-', 'd', 'i', 'r']
    ||| arg.len() >= 6 && arg.subrange(0, 6) == seq!['-', '-', 'd', 'i', 'r', '=']
    ||| arg.len() >= 2 && arg[0] == '-' && exists|i: int|
        1 <= i < arg.len() && #[trigger] arg[i] == 'd' && forall|j: int|
            1 <= j < i ==> (#[trigger] arg[j] == 'n' || arg[j] == 'v')
}

/// The argument spells the log file: `--log-file`, or `--log-file=` and a value.
pub open spec fn spells_log(arg: Seq<char>) -> bool {
    ||| arg == "--log-file"@
    ||| arg.len() >= 11 && arg.subrange(0, 11) == "--log-file="@
}

/// The directory counts as given where, and only where, an argument behind the program's name spells
/// it.
pub proof fn lemma_directory_is_given_in_its_spellings(args: Seq<Seq<char>>)
    ensures
        cli::dir_given(args) <==> exists|i: int| 1 <= i < args.len() && spells_dir(#[trigger] args[i]),
{
    assert forall|i: int| 1 <= i < args.len() implies cli::is_option(#[trigger] args[i], Some("-d"@), "--dir"@)
        == spells_dir(args[i]) by {
        lemma_spelled_directory(args[i]);
    }
    if cli::dir_given(args) {
        let i = choose|i: int| 1 <= i < args.len() && cli::is_option(#[trigger] args[i], Some("-d"@), "--dir"@);
        assert(spells_dir(args[i]));
    }
    if exists|i: int| 1 <= i < args.len() && spells_dir(#[trigger] args[i]) {
        let i = choose|i: int| 1 <= i < args.len() && spells_dir(#[trigger] args[i]);
        assert(cli::is_option(args[i], Some("-d"@), "--dir"@));
    }
}

proof fn lemma_spelled_directory(arg: Seq<char>)
    ensures
        cli::is_option(arg, Some("-d"@), "--dir"@) == spells_dir(arg),
{
    reveal_strlit("-d");
    reveal_strlit("--dir");
    reveal_strlit("=");
    assert("--dir"@ =~= seq!['-', '-', 'd', 'i', 'r']);
    assert("--dir"@ + "="@ =~= seq!['-', '-', 'd', 'i', 'r', '=']);
    if arg == "-d"@ {
        assert(arg[1] == 'd');
    }
    if cli::gives_short(arg, "-d"@) {
        let i = choose|i: int|
            1 <= i < arg.len() && #[trigger] arg[i] == "-d"@[1] && forall|j: int|
                1 <= j < i ==> cli::is_flag(#[trigger] arg[j]);
        assert forall|j: int| 1 <= j < i implies (#[trigger] arg[j] == 'n' || arg[j] == 'v') by {
            assert(cli::is_flag(arg[j]));
        }
        assert(arg[i] == 'd');
    }
    if arg.len() >= 2 && arg[0] == '-' && exists|i: int|
        1 <= i < arg.len() && #[trigger] arg[i] == 'd' && forall|j: int|
            1 <= j < i ==> (#[trigger] arg[j] == 'n' || arg[j] == 'v') {
        let i = choose|i: int|
            1 <= i < arg.len() && #[trigger] arg[i] == 'd' && forall|j: int|
                1 <= j < i ==> (#[trigger] arg[j] == 'n' || arg[j] == 'v');
        assert forall|j: int| 1 <= j < i implies cli::is_flag(#[trigger] arg[j]) by {
            assert(arg[j] == 'n' || arg[j] == 'v');
        }
        assert(arg[i] == "-d"@[1]);
        assert(cli::gives_short(arg, "-d"@));
    }
}

/// The log file counts as given where, and only where, an argument behind the program's name spells
/// it.
pub proof fn lemma_log_file_is_given_in_its_spellings(args: Seq<Seq<char>>)
    ensures
        cli::log_given(args) <==> exists|i: int| 1 <= i < args.len() && spells_log(#[trigger] args[i]),
{
    reveal_strlit("--log-file");
    reveal_strlit("=");
    reveal_strlit("--log-file=");
    assert("--log-file"@ + "="@ =~= "--log-file="@);
    assert forall|i: int| 1 <= i < args.len() implies cli::is_option(#[trigger] args[i], None, "--log-file"@)
        == spells_log(args[i]) by {}
    if cli::log_given(args) {
        let i = choose|i: int| 1 <= i < args.len() && cli::is_option(#[trigger] args[i], None, "--log-file"@);
        assert(spells_log(args[i]));
    }
    if exists|i: int| 1 <= i < args.len() && spells_log(#[trigger] args[i]) {
        let i = choose|i: int| 1 <= i < args.len() && spells_log(#[trigger] args[i]);
        assert(cli::is_option(args[i], None, "--log-file"@));
    }
}

/// The argument is something else than an option for the directory: a word without a dash before
/// it, another long option, or short options without the letter `d`.
pub open spec fn is_other(arg: Seq<char>) -> bool {
    ||| arg.len() == 0
    ||| arg[0] != '-'
    ||| arg.len() >= 2 && arg[0] == '-' && arg[1] == '-' && arg != "--dir"@ && !(arg.len() >= 6 && arg.subrange(0, 6)
        == "--dir="@)
    ||| !arg.contains('d')
}

/// Words, other long options (such as `--dry-run` and `--verbose`) and other short options give no
/// directory.
pub proof fn lemma_other_arguments_give_no_directory(args: Seq<Seq<char>>)
    requires
        forall|i: int| 1 <= i < args.len() ==> is_other(#[trigger] args[i]),
    ensures
        !cli::dir_given(args),
{
    lemma_directory_is_given_in_its_spellings(args);
    reveal_strlit("--dir");
    reveal_strlit("--dir=");
    assert("--dir"@ =~= seq!['-', '-', 'd', 'i', 'r']);
    assert("--dir="@ =~= seq!['-', '-', 'd', 'i', 'r', '=']);
    assert forall|i: int| 1 <= i < args.len() implies !spells_dir(#[trigger] args[i]) by {
        let arg = args[i];
        assert(is_other(arg));
        if spells_dir(arg) {
            if arg == seq!['-', '-', 'd', 'i', 'r'] {
                assert(arg[2] == 'd');
                assert(arg.contains('d'));
            } else if arg.len() >= 6 && arg.subrange(0, 6) == seq!['-', '-', 'd', 'i', 'r', '='] {
                assert(arg.subrange(0, 6)[0] == '-' && arg.subrange(0, 6)[2] == 'd');
                assert(arg[0] == '-' && arg[2] == 'd');
                assert(arg.contains('d'));
            } else {
                let k = choose|k: int|
                    1 <= k < arg.len() && #[trigger] arg[k] == 'd' && forall|j: int|
                        1 <= j < k ==> (#[trigger] arg[j] == 'n' || arg[j] == 'v');
                assert(arg[k] == 'd');
                assert(arg.contains('d'));
                assert(arg[1] == '-');
                assert(k != 1);
            }
        }
    }
}

/// With words and other options only and no environment variable, the saved directory applies: that
/// of the workspace that was asked for, else the saved default; and without one what was built in.
pub proof fn lemma_saved_directory_applies_where_none_is_given(
    before: CliModel,
    args: Seq<Seq<char>>,
    config: ConfigModel,
    env_log_set: bool,
    after: CliModel,
)
    requires
        cli::settled(before, args, config, false, env_log_set, after),
        forall|i: int| 1 <= i < args.len() ==> is_other(#[trigger] args[i]),
    ensures
        before.workspace is None && config.dir is Some ==> after.dir == config.dir->0,
        before.workspace is None && config.dir is None ==> after.dir == before.dir,
        before.workspace is Some ==> exists|i: int| #[trigger]
            is_first(config.workspaces, before.workspace->0, i) && after.dir == config.workspaces[i].dir,
{
    lemma_other_arguments_give_no_directory(args);
    lemma_settled(before, args, config, false, env_log_set, after);
}

/// The workspace at the place is the first one of that name.
pub open spec fn is_first(workspaces: Seq<WorkspaceModel>, name: Seq<char>, i: int) -> bool {
    &&& 0 <= i < workspaces.len()
    &&& workspaces[i].name == name
    &&& forall|j: int| 0 <= j < i ==> (#[trigger] workspaces[j]).name != name
}

proof fn lemma_settled(
    before: CliModel,
    args: Seq<Seq<char>>,
    config: ConfigModel,
    env_dir_set: bool,
    env_log_set: bool,
    after: CliModel,
) -> (w: Option<WorkspaceModel>)
    requires
        cli::settled(before, args, config, env_dir_set, env_log_set, after),
    ensures
        w is None <==> before.workspace is None,
        w is Some ==> exists|i: int| #[trigger]
            is_first(config.workspaces, before.workspace->0, i) && config.workspaces[i] == w->0,
        after == before.completed(config, w, cli::dir_given(args) || env_dir_set, cli::log_given(args) || env_log_set),
{
    let w = choose|w: Option<WorkspaceModel>| #[trigger]
        cli::requested(config, before.workspace, w) && after == before.completed(
            config,
            w,
            cli::dir_given(args) || env_dir_set,
            cli::log_given(args) || env_log_set,
        );
    if w is Some {
        let name = before.workspace->0;
        let i = choose|i: int| #[trigger]
            crate::names::first_named::<crate::config::WorkspaceConfig>(config.workspaces, name, i)
                && config.workspaces[i] == w->0;
        let before_it = config.workspaces.subrange(0, i);
        assert forall|j: int| 0 <= j < i implies (#[trigger] config.workspaces[j]).name != name by {
            assert(before_it[j] == config.workspaces[j]);
        }
        assert(is_first(config.workspaces, name, i));
    }
    w
}

/// What was given, on the command line or in the environment, stands; what the workspace or the
/// saved defaults hold takes the place of what was not; and nothing else changes.
pub proof fn lemma_given_settings_stand(
    before: CliModel,
    args: Seq<Seq<char>>,
    config: ConfigModel,
    env_dir_set: bool,
    env_log_set: bool,
    after: CliModel,
)
    requires
        cli::settled(before, args, config, env_dir_set, env_log_set, after),
    ensures
        env_dir_set ==> after.dir == before.dir,
        (exists|i: int| 1 <= i < args.len() && spells_dir(#[trigger] args[i])) ==> after.dir == before.dir,
        env_log_set ==> after.log_file == before.log_file,
        (exists|i: int| 1 <= i < args.len() && spells_log(#[trigger] args[i])) ==> after.log_file == before.log_file,
        !env_log_set && (forall|i: int| 1 <= i < args.len() ==> !spells_log(#[trigger] args[i])) ==> {
            &&& before.workspace is None && config.log_file is Some ==> after.log_file == config.log_file->0
            &&& before.workspace is None && config.log_file is None ==> after.log_file == before.log_file
            &&& before.workspace is Some ==> exists|i: int|
                {
                    &&& #[trigger] is_first(config.workspaces, before.workspace->0, i)
                    &&& match (config.workspaces[i].log_file, config.log_file) {
                        (Some(log), _) => after.log_file == log,
                        (None, Some(log)) => after.log_file == log,
                        (None, None) => after.log_file == before.log_file,
                    }
                }
        },
        after.dry_run == before.dry_run,
        after.verbose == before.verbose,
        after.workspace == before.workspace,
{
    lemma_directory_is_given_in_its_spellings(args);
    lemma_log_file_is_given_in_its_spellings(args);
    let w = lemma_settled(before, args, config, env_dir_set, env_log_set, after);
    if w is Some {
        let i = choose|i: int| #[trigger]
            is_first(config.workspaces, before.workspace->0, i) && config.workspaces[i] == w->0;
        assert(is_first(config.workspaces, before.workspace->0, i));
    }
}

/// A workspace can be asked for where its name is good and one of that name is saved.
pub proof fn lemma_saved_workspaces_can_be_asked_for(config: ConfigModel, name: Seq<char>)
    ensures
        cli::workspace_complaint(config, None) is None,
        cli::workspace_complaint(config, Some(name)) is None <==> schedules::good_name(name) && exists|i: int|
            0 <= i < config.workspaces.len() && (#[trigger] config.workspaces[i]).name == name,
        schedules::good_name(name) && (forall|i: int|
            0 <= i < config.workspaces.len() ==> (#[trigger] config.workspaces[i]).name != name)
            ==> cli::workspace_complaint(config, Some(name)) == Some("Workspace not found: "@ + name),
{
    schedules::lemma_good_names_are_taken("workspace"@, name);
    if exists|i: int| 0 <= i < config.workspaces.len() && (#[trigger] config.workspaces[i]).name == name {
        assert(config.has_workspace(name));
    }
}

/// A default that was set is used later where nothing was given, and setting one leaves everything
/// else as it is.
pub proof fn lemma_set_default_is_used_later(
    config: ConfigModel,
    set: CliModel,
    args: Seq<Seq<char>>,
    before: CliModel,
    later: Seq<Seq<char>>,
    after: CliModel,
)
    requires
        before.workspace is None,
        forall|i: int| 1 <= i < later.len() ==> is_other(#[trigger] later[i]) && !spells_log(later[i]),
        cli::settled(
            before,
            later,
            cli::after_setting(config, set, args),
            false,
            false,
            after,
        ),
    ensures
        ({
            let saved = cli::after_setting(config, set, args);
            let dir = exists|i: int| 1 <= i < args.len() && spells_dir(#[trigger] args[i]);
            let log = exists|i: int| 1 <= i < args.len() && spells_log(#[trigger] args[i]);
            &&& dir ==> after.dir == set.dir && saved.dir == Some(set.dir)
            &&& log ==> after.log_file == set.log_file && saved.log_file == Some(set.log_file)
            &&& !dir ==> saved.dir == config.dir
            &&& !log ==> saved.log_file == config.log_file
            &&& saved.workspaces == config.workspaces && saved.schedules == config.schedules
        }),
{
    let saved = cli::after_setting(config, set, args);
    lemma_directory_is_given_in_its_spellings(args);
    lemma_log_file_is_given_in_its_spellings(args);
    lemma_saved_directory_applies_where_none_is_given(before, later, saved, false, after);
    assert forall|i: int| 1 <= i < later.len() implies !spells_log(#[trigger] later[i]) by {
        assert(is_other(later[i]));
    }
    lemma_given_settings_stand(before, later, saved, false, false, after);
}

/// Setting a default is answered with what was set, and with an error where nothing was given.
pub proof fn lemma_setting_needs_something_to_set(set: CliModel, args: Seq<Seq<char>>, path: Seq<char>)
    ensures
        ({
            let dir = exists|i: int| 1 <= i < args.len() && spells_dir(#[trigger] args[i]);
            let log = exists|i: int| 1 <= i < args.len() && spells_log(#[trigger] args[i]);
            let answer = cli::setting_answer(set, args, path);
            let dir_line = ui::two("  "@, ui::label_of("Work dir"@), ui::span(set.dir, Style::Path));
            let log_line = ui::two("  "@, ui::label_of("Log file"@), ui::span(set.log_file, Style::Path));
            let path_line = ui::two("  "@, ui::label_of("Config"@), ui::span(path, Style::Path));
            &&& answer is Ok <==> dir || log
            &&& !dir && !log ==> answer->Err_0.text
                == "Specify at least one setting to save, e.g. `worktree-gc config set -d /path/to/repos`"@
            &&& dir && log ==> answer->Ok_0.skip(1) == seq![dir_line, log_line, path_line]
            &&& dir && !log ==> answer->Ok_0.skip(1) == seq![dir_line, path_line]
            &&& !dir && log ==> answer->Ok_0.skip(1) == seq![log_line, path_line]
        }),
{
    lemma_directory_is_given_in_its_spellings(args);
    lemma_log_file_is_given_in_its_spellings(args);
}

/// The settings that are shown are those that apply and those that are saved, each in its line.
pub proof fn lemma_overview_shows_the_settings(
    settings: CliModel,
    path: Seq<char>,
    saved: ConfigModel,
    built_in: Seq<char>,
)
    ensures
        ({
            let told = cli::settings_overview(settings, path, saved, built_in);
            let line = |label: Seq<char>, span: SpanModel| ui::two("  "@, ui::label_of(label), span);
            let unset = ui::span("(not set)"@, Style::Muted);
            &&& told.len() >= 9
            &&& told[1] == line("Work dir"@, ui::span(settings.dir, Style::Path))
            &&& told[2] == line("Dry run"@, ui::switch(settings.dry_run))
            &&& told[3] == line("Verbose"@, ui::switch(settings.verbose))
            &&& told[4] == line("Log file"@, ui::span(settings.log_file, Style::Path))
            &&& told[5] == line("Config"@, ui::span(path, Style::Path))
            &&& saved.dir is Some ==> told[6] == line("Saved dir"@, ui::span(saved.dir->0, Style::Path))
            &&& saved.dir is None ==> told[6] == line("Saved dir"@, unset)
            &&& saved.log_file is Some ==> told[7] == line("Saved log"@, ui::span(saved.log_file->0, Style::Path))
            &&& saved.log_file is None ==> told[7] == line("Saved log"@, unset)
            &&& told.skip(9) == crate::workspace::registered(saved, built_in) + seq![ui::blank()]
                + crate::schedule::registered(saved.schedules) + seq![ui::blank()]
        }),
{
    let told = cli::settings_overview(settings, path, saved, built_in);
    assert(told.skip(9) =~= crate::workspace::registered(saved, built_in) + seq![ui::blank()]
        + crate::schedule::registered(saved.schedules) + seq![ui::blank()]);
}

/// Taking a default back leaves the other one, the workspaces and the schedules as they are.
pub proof fn lemma_default_is_taken_back(config: ConfigModel)
    ensures
        ({
            let next = cli::without_setting(config, ConfigField::Dir);
            &&& next.dir is None && next.log_file == config.log_file
            &&& next.workspaces == config.workspaces && next.schedules == config.schedules
        }),
        ({
            let next = cli::without_setting(config, ConfigField::LogFile);
            &&& next.log_file is None && next.dir == config.dir
            &&& next.workspaces == config.workspaces && next.schedules == config.schedules
        }),
        ({
            let next = cli::without_setting(config, ConfigField::All);
            &&& next.dir is None && next.log_file is None
            &&& next.workspaces == config.workspaces && next.schedules == config.schedules
        }),
{
}

/// How many records are shown: all of them for the word in any case, as many as the number says for
/// a number, and for nothing else.
pub proof fn lemma_last_is_a_number_or_all(value: Seq<char>, n: nat)
    ensures
        value.len() == 3 && (value[0] == 'a' || value[0] == 'A') && (value[1] == 'l' || value[1] == 'L') && (value[2]
            == 'l' || value[2] == 'L') ==> cli::history_last(value) == Ok::<_, Seq<char>>(HistoryLast::All),
        n <= usize::MAX ==> cli::history_last(text::decimal(n)) == Ok::<_, Seq<char>>(HistoryLast::Count(n as usize)),
        cli::history_last(value) == Ok::<_, Seq<char>>(HistoryLast::All) ==> value.len() == 3 && (value[0] == 'a'
            || value[0] == 'A') && (value[1] == 'l' || value[1] == 'L') && (value[2] == 'l' || value[2] == 'L'),
        cli::history_last(value) matches Ok(HistoryLast::Count(count)) ==> {
            ||| value.len() > 0 && text::digits_value(value) == count && forall|i: int|
                0 <= i < value.len() ==> texts::digit(#[trigger] value[i])
            ||| value.len() > 1 && value[0] == '+' && text::digits_value(value.drop_first()) == count && forall|i: int|
                1 <= i < value.len() ==> texts::digit(#[trigger] value[i])
        },
        cli::history_last(value) matches Err(e) ==> e == "invalid value '"@ + value
            + "': expected a positive integer or 'all'"@,
{
    reveal_strlit("all");
    texts::lemma_case_does_not_count(value, "all"@);
    let max = usize::MAX as nat;
    if value.len() == 3 && text::same_ignoring_case(value, "all"@) {
        assert(value[0] == value[0] && value[1] == value[1] && value[2] == value[2]);
        assert("all"@[0] == 'a' && "all"@[1] == 'l' && "all"@[2] == 'l');
    }
    if let Some(count) = text::parse_number(value, max) {
        texts::lemma_number_texts(value, max, count);
    }
    if n <= usize::MAX {
        let s = text::decimal(n);
        texts::lemma_written_number_reads_back(n, max);
        texts::lemma_case_does_not_count(s, "all"@);
        text::lemma_decimal_reads_back(n);
        assert(text::is_digit(s[0]));
        assert("all"@[0] == 'a');
        assert(!text::same_ignoring_case(s, "all"@));
    }
}

/// The configuration lies in a file of its own directory; it is removed where nothing is configured
/// and written otherwise; what was not there is an empty configuration, what was there is itself, and
/// what could not be read is an error with its cause.
pub proof fn lemma_configuration_is_kept_in_its_file(
    dir: Seq<char>,
    path: Seq<char>,
    config: ConfigModel,
    cause: Seq<char>,
)
    requires
        schedules::is_home(dir),
    ensures
        config::config_home(dir) == dir + "/worktree-gc"@,
        config::config_file(dir) == dir + "/worktree-gc/config.json"@,
        config::saving(Some(dir), config) matches Ok(save) && {
            let file = dir + "/worktree-gc/config.json"@;
            let nothing = config.dir is None && config.log_file is None && config.workspaces.len() == 0
                && config.schedules.len() == 0;
            &&& nothing ==> save == (SaveModel::Remove { path: file, failure: "Cannot remove "@ + file })
            &&& !nothing ==> save == (SaveModel::Write {
                dir: dir + "/worktree-gc"@,
                dir_failure: "Cannot create "@ + (dir + "/worktree-gc"@),
                path: file,
                failure: "Cannot write "@ + file,
            })
        },
        config::saving(None, config) matches Err(e) && e.text == "Cannot determine config directory"@,
        config::loaded(path, SavedModel::Parsed(config)) == Ok::<_, ErrorModel>(config),
        config::loaded(path, SavedModel::Unreadable(cause)) == Err::<ConfigModel, _>(
            ErrorModel { text: "Cannot read "@ + path, cause: Some(cause) },
        ),
        config::loaded(path, SavedModel::Unparsable(cause)) == Err::<ConfigModel, _>(
            ErrorModel { text: "Cannot parse "@ + path, cause: Some(cause) },
        ),
        config::loaded(path, SavedModel::Absent) matches Ok(found) && found.dir is None && found.log_file is None
            && found.workspaces.len() == 0 && found.schedules.len() == 0,
{
    reveal_strlit("/");
    reveal_strlit("worktree-gc");
    reveal_strlit("config.json");
    reveal_strlit("/worktree-gc");
    reveal_strlit("/worktree-gc/config.json");
    let home = config::config_home(dir);
    assert(home =~= dir + "/worktree-gc"@);
    assert(home.last() == 'c');
    assert("config.json"@[0] == 'c');
    assert(config::config_file(dir) =~= dir + "/worktree-gc/config.json"@);
    if config.dir is None && config.log_file is None && config.workspaces.len() == 0 && config.schedules.len() == 0 {
        assert(config.workspaces =~= Seq::<WorkspaceModel>::empty());
        assert(config.schedules =~= Seq::<ScheduleModel>::empty());
    }
}

/// A directory can be scanned where it is there; without one the current directory is, and a cleanup
/// asks for its workspace where nothing at all was said.
pub proof fn lemma_cleanup_needs_its_directory(settings: CliModel, args: Seq<Seq<char>>, dir: Seq<char>, is_dir: bool)
    ensures
        crate::gc::directory_answer(dir, is_dir) is Ok <==> is_dir,
        !is_dir ==> crate::gc::directory_answer(dir, is_dir)->Err_0.text == "Directory does not exist: "@ + dir,
        crate::defaults::usual_dir(Some(dir)) == dir,
        crate::defaults::usual_dir(None) == "."@,
        crate::defaults::default_log(None) == "gc.jsonl"@,
        args.len() > 1 || settings.workspace is Some ==> !cli::asks_for_workspace(settings, args),
        args.len() <= 1 && settings.workspace is None ==> cli::asks_for_workspace(settings, args),
{
}

/// A workspace gets a log of its own where one was spelled out, and what is offered for it is what it
/// has; there is something to choose from two workspaces on.
pub proof fn lemma_workspace_gets_what_was_given(
    settings: CliModel,
    args: Seq<Seq<char>>,
    config: ConfigModel,
    w: WorkspaceModel,
)
    ensures
        (exists|i: int| 1 <= i < args.len() && spells_log(#[trigger] args[i])) ==> crate::workspace::log_asked_for(
            settings,
            args,
        ) == Some(settings.log_file),
        (forall|i: int| 1 <= i < args.len() ==> !spells_log(#[trigger] args[i])) ==> crate::workspace::log_asked_for(
            settings,
            args,
        ) is None,
        crate::workspace::offered_settings(settings, None) == (settings.dir, ""@),
        crate::workspace::offered_settings(settings, Some(w)).0 == w.dir,
        w.log_file is Some ==> crate::workspace::offered_settings(settings, Some(w)).1 == w.log_file->0,
        w.log_file is None ==> crate::workspace::offered_settings(settings, Some(w)).1 == ""@,
        crate::workspace::leaves_a_choice(config) <==> config.workspaces.len() >= 2,
{
    lemma_log_file_is_given_in_its_spellings(args);
}

} // verus!
