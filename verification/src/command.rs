//! Commands of other programs: what is asked of them and how their answer is read.
use crate::error::{Error, ErrorModel};
use crate::names;
use vstd::prelude::*;

verus! {

/// A program and its arguments.
#[derive(Debug)]
pub struct CommandLine {
    pub program: String,
    pub args: Vec<String>,
}

/// What a [`CommandLine`] says.
#[verifier::ext_equal]
pub struct CommandModel {
    pub program: Seq<char>,
    pub args: Seq<Seq<char>>,
}

impl View for CommandLine {
    type V = CommandModel;

    open spec fn view(&self) -> CommandModel {
        CommandModel { program: self.program@, args: self.args.deep_view() }
    }
}

impl CommandLine {
    pub fn new(program: &str) -> (r: CommandLine)
        ensures
            r@ == (CommandModel { program: program@, args: Seq::empty() }),
    {
        let r = CommandLine { program: program.to_owned(), args: Vec::new() };
        assert(r@.args =~= Seq::empty());
        r
    }

    /// The same command with one more argument.
    pub fn arg(self, arg: &str) -> (r: CommandLine)
        ensures
            r@ == (CommandModel { program: self@.program, args: self@.args.push(arg@) }),
    {
        let mut args = self.args;
        names::put(&mut args, arg.to_owned());
        CommandLine { program: self.program, args }
    }
}

/// How a command ended.
#[derive(Debug)]
pub enum Outcome {
    /// It could not be started, for that reason.
    NotStarted { cause: String },
    /// It ran to its end.
    Exited { success: bool, stdout: String, stderr: String },
}

/// What an [`Outcome`] says.
pub enum OutcomeModel {
    NotStarted { cause: Seq<char> },
    Exited { success: bool, stdout: Seq<char>, stderr: Seq<char> },
}

impl View for Outcome {
    type V = OutcomeModel;

    open spec fn view(&self) -> OutcomeModel {
        match self {
            Outcome::NotStarted { cause } => OutcomeModel::NotStarted { cause: cause@ },
            Outcome::Exited { success, stdout, stderr } => OutcomeModel::Exited {
                success: *success,
                stdout: stdout@,
                stderr: stderr@,
            },
        }
    }
}

impl OutcomeModel {
    /// The output of a command that must succeed, or the error for its failure.
    pub open spec fn required(self, not_started: Seq<char>, name: Seq<char>) -> Result<Seq<char>, ErrorModel> {
        match self {
            OutcomeModel::NotStarted { cause } => Err(ErrorModel::caused(not_started, cause)),
            OutcomeModel::Exited { success, stdout, stderr } => if success {
                Ok(stdout)
            } else {
                Err(ErrorModel::plain(name + " failed: "@ + stderr))
            },
        }
    }

    pub open spec fn succeeded(self) -> bool {
        self matches OutcomeModel::Exited { success, .. } && success
    }
}

/// The text of a result, and its error.
pub open spec fn text_result(r: Result<String, Error>) -> Result<Seq<char>, ErrorModel> {
    match r {
        Ok(text) => Ok(text@),
        Err(e) => Err(e@),
    }
}

/// The output of a command that must succeed. `not_started` is the error where it could not be
/// started, with the reason as its cause; a failure is reported under `name`, with what the command wrote to its error stream.
pub fn require_success(outcome: Outcome, not_started: &str, name: &str) -> (r: Result<String, Error>)
    ensures
        text_result(r) == outcome@.required(not_started@, name@),
{
    match outcome {
        Outcome::NotStarted { cause } => Err(Error::caused_by(not_started.to_owned(), cause)),
        Outcome::Exited { success, stdout, stderr } => {
            if success {
                Ok(stdout)
            } else {
                let mut text = name.to_owned();
                text.append(" failed: ");
                text.append(stderr.as_str());
                Err(Error::new(text))
            }
        },
    }
}

} // verus!
