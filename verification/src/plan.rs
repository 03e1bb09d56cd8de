//! Plans: what is to be done on a machine, step by step, and what a failing step means.
use crate::command::{CommandLine, CommandModel, Outcome, OutcomeModel};
use crate::error::{Error, ErrorModel};
use crate::names;
use crate::text;
use crate::ui::{Line, Span, SpanModel};
use vstd::prelude::*;

verus! {

/// What becomes of a plan whose command ended without success.
#[derive(Debug)]
pub enum OnFailure {
    /// It goes on.
    Ignore,
    /// It goes on with a warning that starts with these words.
    Warn(String),
    /// It ends with an error that starts with these words.
    Stop(String),
}

/// What an [`OnFailure`] says.
pub enum FailureModel {
    Ignore,
    Warn(Seq<char>),
    Stop(Seq<char>),
}

impl View for OnFailure {
    type V = FailureModel;

    open spec fn view(&self) -> FailureModel {
        match self {
            OnFailure::Ignore => FailureModel::Ignore,
            OnFailure::Warn(text) => FailureModel::Warn(text@),
            OnFailure::Stop(text) => FailureModel::Stop(text@),
        }
    }
}

/// One step of a plan.
#[derive(Debug)]
pub enum Step {
    /// Print a line.
    Show(Line),
    /// Make a directory and those above it.
    CreateDir { path: String },
    /// Write a file. `failure` is the error where that cannot be done.
    WriteFile { path: String, content: String, failure: String },
    /// Remove a file. `failure` is the error where that cannot be done, in place of the system's own.
    RemoveFile { path: String, failure: Option<String> },
    /// Run a command. `not_started` is the error where it cannot be started, if that is one.
    Run { command: CommandLine, not_started: Option<String>, on_failure: OnFailure },
}

/// What a [`Step`] says.
#[verifier::ext_equal]
pub enum StepModel {
    Show(Seq<SpanModel>),
    CreateDir { path: Seq<char> },
    WriteFile { path: Seq<char>, content: Seq<char>, failure: Seq<char> },
    RemoveFile { path: Seq<char>, failure: Option<Seq<char>> },
    Run { command: CommandModel, not_started: Option<Seq<char>>, on_failure: FailureModel },
}

impl View for Step {
    type V = StepModel;

    open spec fn view(&self) -> StepModel {
        match self {
            Step::Show(line) => StepModel::Show(line@),
            Step::CreateDir { path } => StepModel::CreateDir { path: path@ },
            Step::WriteFile { path, content, failure } => StepModel::WriteFile {
                path: path@,
                content: content@,
                failure: failure@,
            },
            Step::RemoveFile { path, failure } => StepModel::RemoveFile {
                path: path@,
                failure: failure.deep_view(),
            },
            Step::Run { command, not_started, on_failure } => StepModel::Run {
                command: command@,
                not_started: not_started.deep_view(),
                on_failure: on_failure@,
            },
        }
    }
}

impl DeepView for Step {
    type V = StepModel;

    open spec fn deep_view(&self) -> StepModel {
        self@
    }
}

/// The steps of a plan and its refusal, as their models.
pub open spec fn plan_model(r: Result<Vec<Step>, Error>) -> Result<Seq<StepModel>, ErrorModel> {
    match r {
        Ok(steps) => Ok(steps.deep_view()),
        Err(e) => Err(e@),
    }
}

/// How a plan goes on after a command.
#[derive(Debug)]
pub enum Verdict {
    Continue,
    Warn(String),
    Stop(Error),
}

/// What a [`Verdict`] says.
pub enum VerdictModel {
    Continue,
    Warn(Seq<char>),
    Stop(ErrorModel),
}

impl View for Verdict {
    type V = VerdictModel;

    open spec fn view(&self) -> VerdictModel {
        match self {
            Verdict::Continue => VerdictModel::Continue,
            Verdict::Warn(text) => VerdictModel::Warn(text@),
            Verdict::Stop(e) => VerdictModel::Stop(e@),
        }
    }
}

/// What the end of a command means for the plan that it belongs to.
pub open spec fn consequence(outcome: OutcomeModel, not_started: Option<Seq<char>>, on_failure: FailureModel) -> VerdictModel {
    match outcome {
        OutcomeModel::NotStarted { cause } => match not_started {
            Some(text) => VerdictModel::Stop(ErrorModel::caused(text, cause)),
            None => VerdictModel::Continue,
        },
        OutcomeModel::Exited { success, stderr, .. } => if success {
            VerdictModel::Continue
        } else {
            match on_failure {
                FailureModel::Ignore => VerdictModel::Continue,
                FailureModel::Warn(what) => VerdictModel::Warn(what + ": "@ + text::trim(stderr)),
                FailureModel::Stop(what) => VerdictModel::Stop(ErrorModel::plain(what + ": "@ + stderr)),
            }
        },
    }
}

/// What the end of a command means for the plan that it belongs to. A warning carries what the
/// command wrote to its error stream without the white space around it, an error all of it.
pub fn judge(outcome: &Outcome, not_started: &Option<String>, on_failure: &OnFailure) -> (r: Verdict)
    ensures
        r@ == consequence(outcome@, not_started.deep_view(), on_failure@),
{
    match outcome {
        Outcome::NotStarted { cause } => match not_started {
            Some(text) => Verdict::Stop(Error::caused_by(text.clone(), cause.clone())),
            None => Verdict::Continue,
        },
        Outcome::Exited { success, stderr, .. } => {
            if *success {
                return Verdict::Continue;
            }
            match on_failure {
                OnFailure::Ignore => Verdict::Continue,
                OnFailure::Warn(what) => {
                    let mut words = what.clone();
                    words.append(": ");
                    words.append(text::trimmed(stderr.as_str()));
                    Verdict::Warn(words)
                },
                OnFailure::Stop(what) => {
                    let mut words = what.clone();
                    words.append(": ");
                    words.append(stderr.as_str());
                    Verdict::Stop(Error::new(words))
                },
            }
        },
    }
}

/// A command whose end does not matter.
pub open spec fn attempt(command: CommandModel) -> StepModel {
    StepModel::Run { command, not_started: None, on_failure: FailureModel::Ignore }
}

/// A command that must start and succeed.
pub open spec fn demand(command: CommandModel, not_started: Seq<char>, failed: Seq<char>) -> StepModel {
    StepModel::Run { command, not_started: Some(not_started), on_failure: FailureModel::Stop(failed) }
}

/// A file that must be written.
pub open spec fn written(path: Seq<char>, content: Seq<char>) -> StepModel {
    StepModel::WriteFile { path, content, failure: "Failed to write "@ + path }
}

/// A command whose end does not matter.
pub fn attempt_step(command: CommandLine) -> (r: Step)
    ensures
        r@ == attempt(command@),
{
    Step::Run { command, not_started: None, on_failure: OnFailure::Ignore }
}

/// A command that must start and succeed.
pub fn demand_step(command: CommandLine, not_started: &str, failed: &str) -> (r: Step)
    ensures
        r@ == demand(command@, not_started@, failed@),
{
    Step::Run {
        command,
        not_started: Some(not_started.to_owned()),
        on_failure: OnFailure::Stop(failed.to_owned()),
    }
}

/// A file that must be written.
pub fn write_step(path: &str, content: String) -> (r: Step)
    ensures
        r@ == written(path@, content@),
{
    let mut failure = "Failed to write ".to_owned();
    failure.append(path);
    Step::WriteFile { path: path.to_owned(), content, failure }
}

/// Adds a line to print.
pub fn show(steps: &mut Vec<Step>, line: Line)
    ensures
        final(steps).deep_view() == old(steps).deep_view().push(StepModel::Show(line@)),
{
    names::put(steps, Step::Show(line));
}

/// A labelled value, set in two spaces.
pub open spec fn shown(label: Seq<char>, value: SpanModel) -> StepModel {
    StepModel::Show(crate::ui::two("  "@, crate::ui::label_of(label), value))
}

/// Adds a labelled value, set in two spaces.
pub fn show_value(steps: &mut Vec<Step>, label: &str, value: Span)
    ensures
        final(steps).deep_view() == old(steps).deep_view().push(shown(label@, value@)),
{
    show(steps, Line::two("  ", crate::ui::label(label), value));
}

/// Whether a path is among those that are there.
pub fn is_present(present: &Vec<String>, path: &str) -> (r: bool)
    ensures
        r == present.deep_view().contains(path@),
{
    match names::position(present, path) {
        Some(i) => {
            assert(present.deep_view()[i as int] == path@);
            true
        },
        None => {
            proof {
                if present.deep_view().contains(path@) {
                    let i = choose|i: int| 0 <= i < present.deep_view().len() && present.deep_view()[i] == path@;
                    assert(names::has_name::<String>(present.deep_view(), path@));
                }
            }
            false
        },
    }
}

} // verus!
