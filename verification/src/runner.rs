//! Handing the message to `git`: the arguments of the call, and what is
//! reported of its result.

use crate::compose::text_of;
use crate::record::texts;
use vstd::prelude::*;

verus! {

/// What the arguments of the commit call are: the subcommand, `-m`, and the
/// message as one value, whatever lines it has.
pub open spec fn commit_argument_texts(message: Seq<char>) -> Seq<Seq<char>> {
    seq!["commit"@, "-m"@, message]
}

/// The arguments with which `git` is run to record `message`. The message
/// is one value here and is not split by lines: `git` makes its own
/// paragraphs of it. The command line that is shown to the user passes
/// each line by itself instead; the two differ on purpose.
pub fn commit_arguments(message: &str) -> (arguments: Vec<String>)
    ensures
        texts(arguments@) == commit_argument_texts(message@),
{
    let mut arguments: Vec<String> = Vec::new();
    arguments.push(String::from_str("commit"));
    arguments.push(String::from_str("-m"));
    arguments.push(String::from_str(message));
    assert(texts(arguments@) =~= commit_argument_texts(message@));
    arguments
}

/// How the call of `git` went.
#[derive(Debug)]
pub enum RunResult {
    /// The process ran and ended.
    Exited {
        /// Whether its exit status says success.
        success: bool,
        /// What it wrote to standard output.
        stdout: String,
        /// What it wrote to standard error.
        stderr: String,
    },
    /// The process could not be started.
    NotStarted {
        /// Why not.
        reason: String,
    },
}

/// What the user is told of the call.
#[derive(Debug)]
pub enum Report {
    /// The commit was made; `output` is what `git` printed, if anything.
    Succeeded { output: Option<String> },
    /// `git` refused; `errors` is what it printed as errors, if anything.
    Failed { errors: Option<String> },
    /// `git` could not be started, for the given reason.
    NotStarted { reason: String },
}

/// How the call went, its texts as characters.
pub enum RunResultView {
    Exited { success: bool, stdout: Seq<char>, stderr: Seq<char> },
    NotStarted { reason: Seq<char> },
}

impl View for RunResult {
    type V = RunResultView;

    open spec fn view(&self) -> RunResultView {
        match self {
            RunResult::Exited { success, stdout, stderr } => RunResultView::Exited {
                success: *success,
                stdout: stdout@,
                stderr: stderr@,
            },
            RunResult::NotStarted { reason } => RunResultView::NotStarted { reason: reason@ },
        }
    }
}

/// What the user is told, its texts as characters.
pub enum ReportView {
    Succeeded { output: Option<Seq<char>> },
    Failed { errors: Option<Seq<char>> },
    NotStarted { reason: Seq<char> },
}

impl View for Report {
    type V = ReportView;

    open spec fn view(&self) -> ReportView {
        match self {
            Report::Succeeded { output } => ReportView::Succeeded { output: text_of(*output) },
            Report::Failed { errors } => ReportView::Failed { errors: text_of(*errors) },
            Report::NotStarted { reason } => ReportView::NotStarted { reason: reason@ },
        }
    }
}

/// A text to be shown, or none where it is empty.
pub open spec fn shown(text: Seq<char>) -> Option<Seq<char>> {
    if text.len() == 0 {
        None
    } else {
        Some(text)
    }
}

/// What the user is told of `result`: that the commit was made, with what
/// `git` printed; that `git` refused, with what it printed as errors; or
/// that `git` did not start, with the reason. Empty output is left out.
pub open spec fn report_of(result: RunResultView) -> ReportView {
    match result {
        RunResultView::Exited { success, stdout, stderr } => if success {
            ReportView::Succeeded { output: shown(stdout) }
        } else {
            ReportView::Failed { errors: shown(stderr) }
        },
        RunResultView::NotStarted { reason } => ReportView::NotStarted { reason },
    }
}

/// What to tell the user of `result`.
pub fn report(result: RunResult) -> (report: Report)
    ensures
        report@ == report_of(result@),
{
    match result {
        RunResult::Exited { success, stdout, stderr } => {
            if success {
                if stdout.as_str().is_empty() {
                    Report::Succeeded { output: None }
                } else {
                    Report::Succeeded { output: Some(stdout) }
                }
            } else {
                if stderr.as_str().is_empty() {
                    Report::Failed { errors: None }
                } else {
                    Report::Failed { errors: Some(stderr) }
                }
            }
        },
        RunResult::NotStarted { reason } => Report::NotStarted { reason },
    }
}

/// What the program does when it is started.
#[derive(Clone, Copy, Debug, PartialEq, Eq, Structural)]
pub enum Mode {
    /// It runs the questionnaire.
    Interactive,
    /// It prints how to start the questionnaire, and ends.
    Hint,
}

/// What to do at the start: the questionnaire where the interactive flag is
/// given or the command line holds the program's name alone (`words` is 1),
/// the hint otherwise.
pub fn choose_mode(interactive: bool, words: usize) -> (mode: Mode)
    ensures
        mode == if interactive || words == 1 {
            Mode::Interactive
        } else {
            Mode::Hint
        },
{
    if interactive || words == 1 {
        Mode::Interactive
    } else {
        Mode::Hint
    }
}

} // verus!
