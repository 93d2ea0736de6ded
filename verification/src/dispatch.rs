//! The wallpaper command: how it is called, and what is said when it fails.

use vstd::prelude::*;
use vstd::string::StringExecFns;

verus! {

/// The program that sets the wallpaper.
pub const PROGRAM: &'static str = "hyprctl";

/// What every diagnostic of a failed command starts with.
pub const FAILURE_HEAD: &'static str = "Error executing command: ";

/// A program and the arguments to run it with.
#[derive(Clone, Debug, PartialEq, Eq)]
pub struct Invocation {
    pub program: String,
    pub arguments: Vec<String>,
}

/// The arguments that set the image at `path` as the wallpaper of the output
/// `output`.
pub open spec fn wallpaper_arguments(output: Seq<char>, path: Seq<char>) -> Seq<Seq<char>> {
    seq!["hyprpaper"@, "wallpaper"@, output + ","@ + path]
}

/// The command that sets the image at `path` as the wallpaper of the output
/// `output`.
pub fn wallpaper_command(output: &str, path: &str) -> (command: Invocation)
    ensures
        command.program@ == PROGRAM@,
        command.arguments.deep_view() == wallpaper_arguments(output@, path@),
{
    let mut target = String::from_str(output);
    target.append(",");
    target.append(path);
    let mut arguments: Vec<String> = Vec::new();
    arguments.push(String::from_str("hyprpaper"));
    arguments.push(String::from_str("wallpaper"));
    arguments.push(target);
    assert(arguments.deep_view() =~= wallpaper_arguments(output@, path@));
    Invocation { program: String::from_str(PROGRAM), arguments }
}

/// How a run of the wallpaper command ended.
#[derive(Clone, Debug, PartialEq, Eq)]
pub enum Outcome {
    /// The command ran and reported success.
    Succeeded,
    /// The command ran and reported failure; the text is its exit status.
    Failed(String),
    /// The command could not be started; the text says why.
    NotStarted(String),
}

/// The mathematical value of an [`Outcome`].
pub enum OutcomeView {
    Succeeded,
    Failed(Seq<char>),
    NotStarted(Seq<char>),
}

impl View for Outcome {
    type V = OutcomeView;

    open spec fn view(&self) -> OutcomeView {
        match self {
            Outcome::Succeeded => OutcomeView::Succeeded,
            Outcome::Failed(status) => OutcomeView::Failed(status@),
            Outcome::NotStarted(reason) => OutcomeView::NotStarted(reason@),
        }
    }
}

/// The line to log after a run of the command: none after a success, else
/// the head followed by the exit status or by the reason.
pub open spec fn diagnostic_of(outcome: OutcomeView) -> Option<Seq<char>> {
    match outcome {
        OutcomeView::Succeeded => None,
        OutcomeView::Failed(status) => Some(FAILURE_HEAD@ + status),
        OutcomeView::NotStarted(reason) => Some(FAILURE_HEAD@ + reason),
    }
}

/// The line to log after a run of the command, see [`diagnostic_of`].
pub fn diagnostic(outcome: &Outcome) -> (line: Option<String>)
    ensures
        match line {
            Some(text) => diagnostic_of(outcome@) == Some(text@),
            None => diagnostic_of(outcome@) is None,
        },
{
    match outcome {
        Outcome::Succeeded => None,
        Outcome::Failed(status) => Some(String::from_str(FAILURE_HEAD).concat(status.as_str())),
        Outcome::NotStarted(reason) => Some(
            String::from_str(FAILURE_HEAD).concat(reason.as_str()),
        ),
    }
}

} // verus!
