//! Named schedules: what is saved, shown and asked about them.
use crate::cli;
use crate::cli::{Cli, CliModel};
use crate::command;
use crate::config::{ConfigModel, RuntimeConfigFile, ScheduleConfig, ScheduleModel};
use crate::defaults;
use crate::error::{Error, ErrorModel};
use crate::gc;
use crate::names;
use crate::platform;
use crate::schedule_names;
use crate::text;
use crate::ui;
use crate::ui::{Line, Menu, MenuModel, SpanModel, Style};
use crate::workspace;
use vstd::prelude::*;

verus! {

/// A time of day.
pub open spec fn is_daily_time(hour: nat, minute: nat) -> bool {
    hour < 24 && minute < 60
}

/// What is wrong with a time of day.
pub open spec fn time_complaint(hour: u8, minute: u8) -> Option<Seq<char>> {
    if hour >= 24 {
        Some("Hour must be between 0 and 23"@)
    } else if minute >= 60 {
        Some("Minute must be between 0 and 59"@)
    } else {
        None
    }
}

/// Accepts a time of day, or says what is wrong with it.
pub fn ensure_valid_daily_time(hour: u8, minute: u8) -> (r: Result<(), Error>)
    ensures
        gc::done_model(r) == (match time_complaint(hour, minute) {
            Some(complaint) => Err(ErrorModel::plain(complaint)),
            None => Ok(()),
        }),
        r is Ok <==> is_daily_time(hour as nat, minute as nat),
{
    if hour >= 24 {
        return Err(Error::new("Hour must be between 0 and 23".to_owned()));
    }
    if minute >= 60 {
        return Err(Error::new("Minute must be between 0 and 59".to_owned()));
    }
    Ok(())
}

/// The time that `HH:MM` stands for: two digits before and two digits behind the first colon.
pub open spec fn daily_time(input: Seq<char>) -> Option<(u8, u8)> {
    let colon = text::first_at(input, ':') as int;
    let hour = input.subrange(0, colon);
    let minute = text::after(input, colon + 1);
    if colon < input.len() && is_two_digits(hour) && is_two_digits(minute) && is_daily_time(
        text::digits_value(hour),
        text::digits_value(minute),
    ) {
        Some((text::digits_value(hour) as u8, text::digits_value(minute) as u8))
    } else {
        None
    }
}

/// Two decimal digits.
pub open spec fn is_two_digits(s: Seq<char>) -> bool {
    s.len() == 2 && text::all_digits(s)
}

/// The number that two digits stand for.
fn two_digit_number(s: &str) -> (r: Option<u8>)
    ensures
        r is Some <==> is_two_digits(s@),
        r matches Some(n) ==> n == text::digits_value(s@),
{
    if s.unicode_len() != 2 {
        return None;
    }
    let first = s.get_char(0);
    let second = s.get_char(1);
    if first < '0' || first > '9' || second < '0' || second > '9' {
        assert(!(text::is_digit(s@[0]) && text::is_digit(s@[1])));
        return None;
    }
    proof {
        assert(s@.drop_last().drop_last() =~= Seq::empty());
        assert(s@.drop_last().last() == s@[0]);
        reveal_with_fuel(text::digits_value, 3);
    }
    Some((first as u8 - '0' as u8) * 10 + (second as u8 - '0' as u8))
}

/// Reads a time of day.
pub fn parse_daily_time(input: &str) -> (r: Option<(u8, u8)>)
    ensures
        r == daily_time(input@),
{
    let colon = match text::find(input, ':') {
        Some(colon) => colon,
        None => return None,
    };
    let n = input.unicode_len();
    match (two_digit_number(input.substring_char(0, colon)), two_digit_number(input.substring_char(colon + 1, n))) {
        (Some(hour), Some(minute)) => if hour < 24 && minute < 60 {
            Some((hour, minute))
        } else {
            None
        },
        _ => None,
    }
}

/// A time is taken where it reads as one of a day.
pub open spec fn time_input_answer(input: Seq<char>) -> Result<(), ErrorModel> {
    if daily_time(input) is Some {
        Ok(())
    } else {
        Err(ErrorModel::plain("Must be in HH:MM format, for example 09:00 or 18:30"@))
    }
}

/// Accepts what a person types for a time of day, or says how it must look.
pub fn check_time_input(input: &str) -> (r: Result<(), Error>)
    ensures
        gc::done_model(r) == time_input_answer(input@),
{
    if parse_daily_time(input).is_some() {
        Ok(())
    } else {
        Err(Error::new("Must be in HH:MM format, for example 09:00 or 18:30".to_owned()))
    }
}

/// A time of day reads back from the form that it is shown in.
pub proof fn lemma_shown_time_reads_back(hour: u8, minute: u8)
    requires
        is_daily_time(hour as nat, minute as nat),
    ensures
        daily_time(platform::clock(hour as nat, minute as nat)) == Some((hour, minute)),
{
    let h = text::two_digits(hour as nat);
    let m = text::two_digits(minute as nat);
    let s = platform::clock(hour as nat, minute as nat);
    reveal_strlit(":");
    text::lemma_two_digits_parse(hour as nat, u8::MAX as nat);
    text::lemma_two_digits_parse(minute as nat, u8::MAX as nat);
    lemma_two_digits_are_digits(hour as nat);
    lemma_two_digits_are_digits(minute as nat);
    assert(s =~= h + seq![':'] + m);
    assert(text::is_digit(h[0]) && text::is_digit(h[1]));
    text::lemma_first_at(s, ':', 2);
    assert(s.subrange(0, 2) =~= h);
    assert(text::after(s, 3) =~= m);
}

proof fn lemma_two_digits_are_digits(n: nat)
    requires
        n < 100,
    ensures
        is_two_digits(text::two_digits(n)),
{
    let t = text::two_digits(n);
    text::lemma_two_digits_parse(n, n);
    text::lemma_decimal_reads_back(n);
    reveal_strlit("0");
    assert forall|i: int| 0 <= i < t.len() implies text::is_digit(#[trigger] t[i]) by {
        let d = text::decimal(n);
        if n < 10 {
            if i > 0 {
                assert(t[i] == d[i - 1]);
            }
        } else {
            assert(t[i] == d[i]);
        }
    }
}

/// Why a schedule cannot be installed, before the saved configuration is looked at.
pub open spec fn request_complaint(
    settings: CliModel,
    args: Seq<Seq<char>>,
    name: Seq<char>,
    hour: u8,
    minute: u8,
) -> Option<Seq<char>> {
    if let Some(complaint) = time_complaint(hour, minute) {
        Some(complaint)
    } else if let Some(complaint) = schedule_names::problem(name) {
        Some(complaint)
    } else if settings.workspace is Some && (cli::dir_given(args) || cli::log_given(args)) {
        Some("Use either --workspace or --dir/--log-file when installing a schedule, not both"@)
    } else {
        None
    }
}

/// Accepts a request for a schedule, or says what is wrong with it.
pub fn check_install(cli: &Cli, schedule_name: &str, hour: u8, minute: u8, args: &Vec<String>) -> (r: Result<(), Error>)
    ensures
        gc::done_model(r) == (match request_complaint(cli@, args.deep_view(), schedule_name@, hour, minute) {
            Some(complaint) => Err(ErrorModel::plain(complaint)),
            None => Ok(()),
        }),
{
    match ensure_valid_daily_time(hour, minute) {
        Ok(()) => {},
        Err(e) => return Err(e),
    }
    match schedule_names::validate_schedule_name(schedule_name) {
        Ok(()) => {},
        Err(e) => return Err(e),
    }
    let dir_explicit = cli::gives_dir(args);
    let log_explicit = cli::gives_log(args);
    if cli.workspace.is_some() && (dir_explicit || log_explicit) {
        return Err(
            Error::new(
                "Use either --workspace or --dir/--log-file when installing a schedule, not both".to_owned(),
            ),
        );
    }
    Ok(())
}

/// The workspace of a schedule: the one that was asked for, or the current directory.
pub open spec fn workspace_used(settings: CliModel, config: ConfigModel) -> Result<Seq<char>, ErrorModel> {
    match settings.workspace {
        Some(name) => match cli::workspace_complaint(config, Some(name)) {
            Some(complaint) => Err(ErrorModel::plain(complaint)),
            None => Ok(name),
        },
        None => Ok("default"@),
    }
}

/// The configuration with the workspace of a schedule: the current directory is saved where no
/// workspace was asked for.
pub open spec fn config_with_used(settings: CliModel, config: ConfigModel, next: ConfigModel) -> bool {
    match settings.workspace {
        Some(_) => next == config,
        None => config.with_workspace(workspace::current_workspace(settings), next),
    }
}

/// The workspace that a requested schedule runs: the one that was asked for, or the current settings
/// saved under the usual name. A refused workspace changes nothing.
pub fn schedule_workspace(cli: &Cli, config: &mut RuntimeConfigFile) -> (r: Result<String, Error>)
    ensures
        command::text_result(r) == workspace_used(cli@, old(config)@),
        config_with_used(cli@, old(config)@, final(config)@),
        cli@.workspace is Some ==> *final(config) == *old(config),
{
    match &cli.workspace {
        Some(name) => match cli::check_workspace(config, name.as_str()) {
            Ok(()) => Ok(name.clone()),
            Err(e) => Err(e),
        },
        None => Ok(workspace::use_current_dir(cli, config)),
    }
}

/// What is printed once a schedule is saved.
pub open spec fn saved_lines(name: Seq<char>, workspace: Seq<char>, config_path: Seq<char>) -> Seq<Seq<SpanModel>> {
    seq![
        ui::text_line("  Schedule:  "@ + name),
        ui::text_line("  Workspace: "@ + workspace),
        ui::text_line("  Config:    "@ + config_path),
    ]
}

/// Saves a schedule once it is installed, and says what is printed once the configuration is written.
pub fn install_from_parts(
    config: &mut RuntimeConfigFile,
    name: &str,
    workspace: &str,
    hour: u8,
    minute: u8,
    config_path: &str,
) -> (r: Vec<Line>)
    ensures
        old(config)@.with_schedule(
            (ScheduleModel { name: name@, workspace: workspace@, hour, minute }),
            final(config)@,
        ),
        r.deep_view() == saved_lines(name@, workspace@, config_path@),
{
    config.upsert_schedule(
        ScheduleConfig { name: name.to_owned(), workspace: workspace.to_owned(), hour, minute },
    );
    let mut lines: Vec<Line> = Vec::new();
    let mut line = "  Schedule:  ".to_owned();
    line.append(name);
    ui::put_text(&mut lines, line.as_str());
    let mut line = "  Workspace: ".to_owned();
    line.append(workspace);
    ui::put_text(&mut lines, line.as_str());
    let mut line = "  Config:    ".to_owned();
    line.append(config_path);
    ui::put_text(&mut lines, line.as_str());
    assert(lines.deep_view() =~= saved_lines(name@, workspace@, config_path@));
    lines
}

/// The names of the saved schedules, as they stand.
pub open spec fn names_of(schedules: Seq<ScheduleModel>) -> Seq<Seq<char>> {
    Seq::new(schedules.len(), |i: int| schedules[i].name)
}

/// The names of the saved schedules.
pub fn configured_names(config: &RuntimeConfigFile) -> (r: Vec<String>)
    ensures
        r.deep_view() == names_of(config@.schedules),
{
    let ghost all = config@.schedules;
    let mut out: Vec<String> = Vec::new();
    let mut i: usize = 0;
    while i < config.schedules.len()
        invariant
            i <= config.schedules.len(),
            all == config.schedules.deep_view(),
            out.deep_view() == names_of(all.subrange(0, i as int)),
        decreases config.schedules.len() - i,
    {
        assert(all[i as int] == config.schedules@[i as int]@);
        names::put(&mut out, config.schedules[i].name.clone());
        assert(out.deep_view() =~= names_of(all.subrange(0, i + 1)));
        i = i + 1;
    }
    assert(all.subrange(0, all.len() as int) =~= all);
    out
}

/// The names of all schedules, each once and in order, and `default` among them.
pub open spec fn all_names(config: ConfigModel, shown: Seq<Seq<char>>) -> bool {
    names::distinct_from(names_of(config.schedules).push("default"@), shown)
}

/// The schedules that are removed when all are: the saved ones and the one of the usual name, each
/// once, in order.
pub fn all_schedule_names(config: &RuntimeConfigFile) -> (r: Vec<String>)
    ensures
        all_names(config@, r.deep_view()),
{
    let mut all = configured_names(config);
    names::put(&mut all, "default".to_owned());
    names::sort_distinct(&mut all);
    all
}

/// The configuration without its schedules.
pub open spec fn without_schedules(config: ConfigModel) -> ConfigModel {
    ConfigModel { schedules: Seq::empty(), ..config }
}

/// Forgets all schedules once they are removed, and says what is printed once that is written.
pub fn forget_all_schedules(config: &mut RuntimeConfigFile) -> (r: Line)
    ensures
        final(config)@ == without_schedules(old(config)@),
        r@ == ui::text_line("Removed all registered schedules."@),
{
    config.schedules = Vec::new();
    assert(config@.schedules =~= Seq::empty());
    Line::text("Removed all registered schedules.")
}

/// Forgets a schedule once it is removed, and says what is printed once that is written.
pub fn forget_schedule(config: &mut RuntimeConfigFile, name: &str) -> (r: Line)
    ensures
        final(config)@ == old(config)@.without_schedule(name@),
        r@ == ui::text_line("Removed schedule metadata: "@ + name@),
{
    config.remove_schedule(name);
    let mut text = "Removed schedule metadata: ".to_owned();
    text.append(name);
    Line::text(text.as_str())
}

/// A schedule as a choice: its name, its workspace and its time.
pub open spec fn choice_label(s: ScheduleModel) -> Seq<char> {
    s.name + " ("@ + s.workspace + ", "@ + platform::clock(s.hour as nat, s.minute as nat) + ")"@
}

/// The schedules as choices.
pub open spec fn choice_labels(schedules: Seq<ScheduleModel>) -> Seq<Seq<char>> {
    Seq::new(schedules.len(), |i: int| choice_label(schedules[i]))
}

/// A question for one of the saved schedules.
pub fn schedule_menu(config: &RuntimeConfigFile, prompt: &str) -> (r: Menu)
    ensures
        r@ == (MenuModel {
            heading: Seq::empty(),
            prompt: prompt@,
            choices: choice_labels(config@.schedules),
            default: 0,
        }),
{
    let ghost all = config@.schedules;
    let mut choices: Vec<String> = Vec::new();
    let mut i: usize = 0;
    while i < config.schedules.len()
        invariant
            i <= config.schedules.len(),
            all == config.schedules.deep_view(),
            choices.deep_view() == choice_labels(all.subrange(0, i as int)),
        decreases config.schedules.len() - i,
    {
        let s = &config.schedules[i];
        let mut label = s.name.clone();
        label.append(" (");
        label.append(s.workspace.as_str());
        label.append(", ");
        label.append(platform::clock_text(s.hour as u32, s.minute as u32).as_str());
        label.append(")");
        assert(all[i as int] == s@);
        names::put(&mut choices, label);
        assert(choices.deep_view() =~= choice_labels(all.subrange(0, i + 1)));
        i = i + 1;
    }
    assert(all.subrange(0, all.len() as int) =~= all);
    Menu { heading: Vec::new(), prompt: prompt.to_owned(), choices, default: 0 }
}

/// The lines about one saved schedule.
pub open spec fn entry_lines(s: ScheduleModel) -> Seq<Seq<SpanModel>> {
    seq![
        ui::text_line("  "@ + s.name),
        ui::text_line("    Workspace: "@ + s.workspace),
        ui::text_line("    Time:      "@ + platform::daily(s.hour as nat, s.minute as nat)),
    ]
}

/// The lines about several saved schedules.
pub open spec fn entries(schedules: Seq<ScheduleModel>) -> Seq<Seq<SpanModel>>
    decreases schedules.len(),
{
    if schedules.len() == 0 {
        Seq::empty()
    } else {
        entries(schedules.drop_last()) + entry_lines(schedules.last())
    }
}

/// What is printed about the saved schedules.
pub open spec fn registered(schedules: Seq<ScheduleModel>) -> Seq<Seq<SpanModel>> {
    seq![ui::text_line("Registered schedules:"@)] + if schedules.len() == 0 {
        seq![ui::text_line("  (none)"@)]
    } else {
        entries(schedules)
    }
}

/// What is printed about the saved schedules.
pub fn print_registered(config: &RuntimeConfigFile) -> (r: Vec<Line>)
    ensures
        r.deep_view() == registered(config@.schedules),
{
    let mut lines: Vec<Line> = Vec::new();
    ui::put_text(&mut lines, "Registered schedules:");
    let ghost top = seq![ui::text_line("Registered schedules:"@)];
    assert(lines.deep_view() =~= top);
    if config.schedules.len() == 0 {
        ui::put_text(&mut lines, "  (none)");
        return lines;
    }
    let ghost all = config@.schedules;
    let mut i: usize = 0;
    assert(top + entries(all.subrange(0, 0)) =~= top);
    while i < config.schedules.len()
        invariant
            i <= config.schedules.len(),
            all == config.schedules.deep_view(),
            lines.deep_view() == top + entries(all.subrange(0, i as int)),
        decreases config.schedules.len() - i,
    {
        let s = &config.schedules[i];
        proof {
            let now = all.subrange(0, i + 1);
            assert(now.drop_last() =~= all.subrange(0, i as int));
            assert(now.last() == s@);
        }
        let mut line = "  ".to_owned();
        line.append(s.name.as_str());
        ui::put_text(&mut lines, line.as_str());
        let mut line = "    Workspace: ".to_owned();
        line.append(s.workspace.as_str());
        ui::put_text(&mut lines, line.as_str());
        let mut line = "    Time:      ".to_owned();
        line.append(platform::daily_text(s.hour as u32, s.minute as u32).as_str());
        ui::put_text(&mut lines, line.as_str());
        assert(lines.deep_view() =~= top + entries(all.subrange(0, i + 1)));
        i = i + 1;
    }
    assert(all.subrange(0, all.len() as int) =~= all);
    lines
}

/// What the schedule menu leads to.
#[derive(Debug, Clone, Copy, PartialEq, Eq, Structural)]
pub enum WizardChoice {
    Add,
    Update,
    Remove,
    Status,
    Cancel,
}

/// The schedule menu.
pub open spec fn wizard(config: ConfigModel, built_in: Seq<char>) -> MenuModel {
    MenuModel {
        heading: seq![
            ui::blank(),
            ui::one("  "@, ui::span("worktree-gc scheduler"@, Style::Bold)),
            ui::one("  "@, ui::span("Manage automatic cleanup schedules"@, Style::Subtitle)),
            ui::blank(),
        ] + registered(config.schedules) + seq![ui::blank()] + workspace::registered(config, built_in) + seq![
            ui::blank(),
        ],
        prompt: "What would you like to do?"@,
        choices: seq![
            "Add schedule"@,
            "Update schedule"@,
            "Remove schedule"@,
            "Show scheduler status"@,
            "Cancel"@,
        ],
        default: if config.schedules.len() == 0 { 0 } else { 1 },
    }
}

/// The schedule menu: it offers an update first where there is a schedule.
pub fn interactive_wizard(config: &RuntimeConfigFile, built_in: &str) -> (r: Menu)
    ensures
        r@ == wizard(config@, built_in@),
{
    let mut heading: Vec<Line> = Vec::new();
    ui::put_blank(&mut heading);
    names::put(&mut heading, Line::one("  ", ui::bold("worktree-gc scheduler")));
    names::put(&mut heading, Line::one("  ", ui::subtitle("Manage automatic cleanup schedules")));
    ui::put_blank(&mut heading);
    ui::put_lines(&mut heading, print_registered(config));
    ui::put_blank(&mut heading);
    ui::put_lines(&mut heading, workspace::print_registered(config, built_in));
    ui::put_blank(&mut heading);
    let mut choices: Vec<String> = Vec::new();
    names::put(&mut choices, "Add schedule".to_owned());
    names::put(&mut choices, "Update schedule".to_owned());
    names::put(&mut choices, "Remove schedule".to_owned());
    names::put(&mut choices, "Show scheduler status".to_owned());
    names::put(&mut choices, "Cancel".to_owned());
    let default: usize = if config.schedules.len() == 0 { 0 } else { 1 };
    let r = Menu { heading, prompt: "What would you like to do?".to_owned(), choices, default };
    assert(r@.heading =~= wizard(config@, built_in@).heading);
    assert(r@.choices =~= wizard(config@, built_in@).choices);
    r
}

/// What a choice of [`interactive_wizard`] leads to.
pub open spec fn choice_behind(selection: usize) -> WizardChoice {
    if selection == 0 {
        WizardChoice::Add
    } else if selection == 1 {
        WizardChoice::Update
    } else if selection == 2 {
        WizardChoice::Remove
    } else if selection == 3 {
        WizardChoice::Status
    } else {
        WizardChoice::Cancel
    }
}

/// What a choice of [`interactive_wizard`] leads to.
pub fn wizard_choice(selection: usize) -> (r: WizardChoice)
    ensures
        r == choice_behind(selection),
{
    match selection {
        0 => WizardChoice::Add,
        1 => WizardChoice::Update,
        2 => WizardChoice::Remove,
        3 => WizardChoice::Status,
        _ => WizardChoice::Cancel,
    }
}

/// A new schedule may not have the name of another one.
pub open spec fn new_schedule_answer(config: ConfigModel, name: Seq<char>) -> Result<(), ErrorModel> {
    if config.has_schedule(name) {
        Err(ErrorModel::plain("Schedule already exists: "@ + name))
    } else {
        Ok(())
    }
}

/// Refuses the name of a schedule that there is.
pub fn check_new_schedule(config: &RuntimeConfigFile, name: &str) -> (r: Result<(), Error>)
    ensures
        gc::done_model(r) == new_schedule_answer(config@, name@),
{
    if names::position(&config.schedules, name).is_some() {
        let mut text = "Schedule already exists: ".to_owned();
        text.append(name);
        return Err(Error::new(text));
    }
    Ok(())
}

/// The question before a schedule is removed.
pub fn removal_prompt(name: &str) -> (r: String)
    ensures
        r@ == "Remove schedule '"@ + name@ + "'?"@,
{
    let mut prompt = "Remove schedule '".to_owned();
    prompt.append(name);
    prompt.append("'?");
    prompt
}

/// The name that a new schedule is offered: the usual one, or the first free numbered one.
pub open spec fn new_name(config: ConfigModel, name: Seq<char>) -> bool {
    if config.has_schedule("default"@) {
        exists|k: nat|
            name == names::numbered("schedule-"@, k) && #[trigger] names::first_free::<ScheduleConfig>(
                config.schedules,
                "schedule-"@,
                k,
            )
    } else {
        name == "default"@
    }
}

/// The name that a new schedule is offered.
pub fn default_new_schedule_name(config: &RuntimeConfigFile) -> (r: String)
    ensures
        new_name(config@, r@),
{
    names::fresh_name(&config.schedules, "default", "schedule-")
}

/// The name that a new schedule is offered is not taken, and it is a valid one.
pub proof fn lemma_offered_name_is_free_and_valid(config: ConfigModel, name: Seq<char>)
    requires
        new_name(config, name),
        config.schedules.len() < 0x1_0000_0000_0000_0000,
    ensures
        !config.has_schedule(name),
        schedule_names::problem(name) is None,
{
    reveal_strlit("default");
    reveal_strlit("daily");
    reveal_strlit("schedule-");
    if config.has_schedule("default"@) {
        let k = choose|k: nat|
            name == names::numbered("schedule-"@, k) && #[trigger] names::first_free::<ScheduleConfig>(
                config.schedules,
                "schedule-"@,
                k,
            );
        names::lemma_first_free_is_near::<ScheduleConfig>(config.schedules, "schedule-"@, k);
        defaults::lemma_offered_names_are_valid(k);
        assert(name[0] == 's' && "daily"@[0] == 'd');
    } else {
        defaults::lemma_offered_names_are_valid(2);
        assert("default"@.len() != "daily"@.len());
    }
    defaults::lemma_accepted_names("schedule"@, name);
}

/// What is printed before a schedule is installed.
pub open spec fn summary_lines(name: Seq<char>, workspace: Seq<char>, hour: u8, minute: u8) -> Seq<Seq<SpanModel>> {
    seq![
        ui::blank(),
        ui::one("  "@, ui::span("Summary:"@, Style::Bold)),
        ui::one("  Schedule:  "@, ui::span(name, Style::Value)),
        ui::one("  Workspace: "@, ui::span(workspace, Style::Value)),
        ui::one("  Run daily: "@, ui::span(platform::clock(hour as nat, minute as nat), Style::Value)),
        ui::blank(),
    ]
}

/// What is printed before a schedule is installed.
pub fn print_schedule_summary(name: &str, workspace: &str, hour: u8, minute: u8) -> (r: Vec<Line>)
    ensures
        r.deep_view() == summary_lines(name@, workspace@, hour, minute),
{
    let mut lines: Vec<Line> = Vec::new();
    ui::put_blank(&mut lines);
    names::put(&mut lines, Line::one("  ", ui::bold("Summary:")));
    names::put(&mut lines, Line::one("  Schedule:  ", ui::value(name)));
    names::put(&mut lines, Line::one("  Workspace: ", ui::value(workspace)));
    names::put(
        &mut lines,
        Line::one("  Run daily: ", ui::value(platform::clock_text(hour as u32, minute as u32).as_str())),
    );
    ui::put_blank(&mut lines);
    assert(lines.deep_view() =~= summary_lines(name@, workspace@, hour, minute));
    lines
}

/// A schedule that was requested and saved runs a workspace that there is, and is found with the
/// time that was asked for.
pub proof fn lemma_requested_schedule_has_its_workspace(
    settings: CliModel,
    config: ConfigModel,
    between: ConfigModel,
    s: ScheduleModel,
    next: ConfigModel,
)
    requires
        match settings.workspace {
            Some(name) => between == config && cli::workspace_complaint(config, Some(name)) is None
                && s.workspace == name,
            None => config.with_workspace(workspace::current_workspace(settings), between)
                && s.workspace == "default"@,
        },
        between.with_schedule(s, next),
    ensures
        next.has_workspace(s.workspace),
        exists|i: int|
            #[trigger] names::first_named::<ScheduleConfig>(next.schedules, s.name, i) && next.schedules[i] == s,
{
    if settings.workspace is None {
        crate::config::lemma_saved_workspace_is_found(
            config,
            workspace::current_workspace(settings),
            between,
            s.workspace,
        );
    }
    crate::config::lemma_saved_schedule_is_found(between, s, next, s.name);
}

} // verus!
