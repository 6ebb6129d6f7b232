//! Child processes as plain values: what is to be run, and how a run ended.
//!
//! The library starts no process. It says what the caller is to run and
//! judges what came of it.

use vstd::prelude::*;
use vstd::string::StringExecFns;
use crate::error::{ProvisionError, ProvisionErrorView};
use crate::text::strings_view;

verus! {

/// One run of a program.
#[derive(Clone, Debug, PartialEq, Eq)]
pub struct Invocation {
    /// The program to start.
    pub program: String,
    /// Its arguments, in order.
    pub args: Vec<String>,
    /// The value of the search-path variable in the child's environment.
    /// `None`: the child inherits the parent's. The parent's own
    /// environment is never changed.
    pub search_path: Option<String>,
}

/// An `Invocation` with its strings as character sequences.
pub struct InvocationView {
    pub program: Seq<char>,
    pub args: Seq<Seq<char>>,
    pub search_path: Option<Seq<char>>,
}

impl View for Invocation {
    type V = InvocationView;

    open spec fn view(&self) -> InvocationView {
        InvocationView {
            program: self.program@,
            args: strings_view(self.args@),
            search_path: match self.search_path {
                Some(value) => Some(value@),
                None => None,
            },
        }
    }
}

/// How a run ended.
#[derive(Clone, Debug, PartialEq, Eq)]
pub enum ToolOutcome {
    /// The program could not be started; `reason` says why.
    NotStarted { reason: String },
    /// The program ran and exited. `success` holds for exit code zero; the
    /// two streams hold what it wrote.
    Exited { success: bool, stdout: String, stderr: String },
}

impl ToolOutcome {
    /// Whether the program ran and exited with code zero.
    pub open spec fn succeeded(self) -> bool {
        self matches ToolOutcome::Exited { success, .. } && success
    }

    /// What the program wrote to its standard output; empty where it did
    /// not start.
    pub open spec fn captured_stdout(self) -> Seq<char> {
        match self {
            ToolOutcome::NotStarted { .. } => Seq::<char>::empty(),
            ToolOutcome::Exited { stdout, .. } => stdout@,
        }
    }

    /// What the program wrote to its standard error; where it did not
    /// start, the reason.
    pub open spec fn captured_stderr(self) -> Seq<char> {
        match self {
            ToolOutcome::NotStarted { reason } => reason@,
            ToolOutcome::Exited { stderr, .. } => stderr@,
        }
    }

    /// Whether the program ran and exited with code zero.
    pub fn is_success(&self) -> (b: bool)
        ensures
            b == self.succeeded(),
    {
        match self {
            ToolOutcome::NotStarted { .. } => false,
            ToolOutcome::Exited { success, .. } => *success,
        }
    }

    /// A copy of what the program wrote to its standard output.
    pub fn stdout_text(&self) -> (out: String)
        ensures
            out@ == self.captured_stdout(),
    {
        match self {
            ToolOutcome::NotStarted { .. } => String::new(),
            ToolOutcome::Exited { stdout, .. } => stdout.clone(),
        }
    }

    /// A copy of what the program wrote to its standard error.
    pub fn stderr_text(&self) -> (out: String)
        ensures
            out@ == self.captured_stderr(),
    {
        match self {
            ToolOutcome::NotStarted { reason } => reason.clone(),
            ToolOutcome::Exited { stderr, .. } => stderr.clone(),
        }
    }
}

/// Judges a run of the installer or of the package manager: done where the
/// program exited with code zero, else a `ToolExecutionError` that carries
/// the program and both captured streams.
pub fn check_tool(program: &str, outcome: &ToolOutcome) -> (r: Result<(), ProvisionError>)
    ensures
        match r {
            Ok(_) => outcome.succeeded(),
            Err(e) => !outcome.succeeded() && e@ == (ProvisionErrorView::ToolExecutionError {
                program: program@,
                stdout: outcome.captured_stdout(),
                stderr: outcome.captured_stderr(),
            }),
        },
{
    if outcome.is_success() {
        Ok(())
    } else {
        Err(
            ProvisionError::ToolExecutionError {
                program: String::from_str(program),
                stdout: outcome.stdout_text(),
                stderr: outcome.stderr_text(),
            },
        )
    }
}

} // verus!
