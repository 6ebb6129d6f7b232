//! The ways in which provisioning fails.

use vstd::prelude::*;
use vstd::string::StringExecFns;

verus! {

/// Why provisioning stopped. Every error is fatal: nothing is retried and
/// nothing is rolled back. Each carries what an operator needs in order to
/// mend the cause and run again.
#[derive(Clone, Debug, PartialEq, Eq)]
pub enum ProvisionError {
    /// A version string is not of the shape `X.Y.Z`.
    InvalidFormat { input: String },
    /// No entry of the search path named by `variable` is a host
    /// installation directory called `name` that holds a library directory.
    NotFound { name: String, variable: String },
    /// A download failed: the address was refused, the transport failed,
    /// the server answered without success, or what it sent could not be
    /// saved.
    FetchError { url: String },
    /// The archive could not be unpacked into `path`.
    ExtractionError { path: String },
    /// The host libraries could not be copied to `path`.
    CopyError { path: String },
    /// The configuration file at `path` is absent, holds the `import site`
    /// directive neither commented out nor in force, or could not be
    /// written.
    PatchError { path: String },
    /// The installer or the package manager did not start or did not exit
    /// with success.
    ToolExecutionError { program: String, stdout: String, stderr: String },
    /// The host interpreter that was asked for its version did not start or
    /// did not exit with success.
    ExternalToolError { program: String, stdout: String, stderr: String },
    /// The process environment has no variable `variable`.
    MissingEnvironment { variable: String },
}

/// A `ProvisionError` with its strings as character sequences.
pub enum ProvisionErrorView {
    InvalidFormat { input: Seq<char> },
    NotFound { name: Seq<char>, variable: Seq<char> },
    FetchError { url: Seq<char> },
    ExtractionError { path: Seq<char> },
    CopyError { path: Seq<char> },
    PatchError { path: Seq<char> },
    ToolExecutionError { program: Seq<char>, stdout: Seq<char>, stderr: Seq<char> },
    ExternalToolError { program: Seq<char>, stdout: Seq<char>, stderr: Seq<char> },
    MissingEnvironment { variable: Seq<char> },
}

impl View for ProvisionError {
    type V = ProvisionErrorView;

    open spec fn view(&self) -> ProvisionErrorView {
        match *self {
            ProvisionError::InvalidFormat { input } => ProvisionErrorView::InvalidFormat {
                input: input@,
            },
            ProvisionError::NotFound { name, variable } => ProvisionErrorView::NotFound {
                name: name@,
                variable: variable@,
            },
            ProvisionError::FetchError { url } => ProvisionErrorView::FetchError { url: url@ },
            ProvisionError::ExtractionError { path } => ProvisionErrorView::ExtractionError {
                path: path@,
            },
            ProvisionError::CopyError { path } => ProvisionErrorView::CopyError { path: path@ },
            ProvisionError::PatchError { path } => ProvisionErrorView::PatchError { path: path@ },
            ProvisionError::ToolExecutionError {
                program,
                stdout,
                stderr,
            } => ProvisionErrorView::ToolExecutionError {
                program: program@,
                stdout: stdout@,
                stderr: stderr@,
            },
            ProvisionError::ExternalToolError {
                program,
                stdout,
                stderr,
            } => ProvisionErrorView::ExternalToolError {
                program: program@,
                stdout: stdout@,
                stderr: stderr@,
            },
            ProvisionError::MissingEnvironment { variable } => ProvisionErrorView::MissingEnvironment {
                variable: variable@,
            },
        }
    }
}

/// What a failed tool run is reported as: the program, then both captured
/// streams.
pub open spec fn tool_report(program: Seq<char>, stdout: Seq<char>, stderr: Seq<char>) -> Seq<char> {
    program + " failed\nstdout: "@ + stdout + "\nstderr: "@ + stderr
}

impl ProvisionErrorView {
    /// The line shown to the operator for this error.
    pub open spec fn message(self) -> Seq<char> {
        match self {
            ProvisionErrorView::InvalidFormat { input } => {
                "Version must be of the format: X.Y.Z, got: "@ + input
            },
            ProvisionErrorView::NotFound { name, variable } => {
                "Could not find any "@ + name + "/libs in "@ + variable
            },
            ProvisionErrorView::FetchError { url } => "Could not fetch "@ + url,
            ProvisionErrorView::ExtractionError { path } => {
                "Could not extract the archive into "@ + path
            },
            ProvisionErrorView::CopyError { path } => "Could not copy the host libraries into "@ + path,
            ProvisionErrorView::PatchError { path } => "Could not enable import site in "@ + path,
            ProvisionErrorView::ToolExecutionError { program, stdout, stderr } => tool_report(
                program,
                stdout,
                stderr,
            ),
            ProvisionErrorView::ExternalToolError { program, stdout, stderr } => tool_report(
                program,
                stdout,
                stderr,
            ),
            ProvisionErrorView::MissingEnvironment { variable } => "missing "@ + variable + " env"@,
        }
    }
}

/// `lead` followed by `rest`.
fn prefixed(lead: &str, rest: &String) -> (out: String)
    ensures
        out@ == lead@ + rest@,
{
    let mut out = String::from_str(lead);
    out.append(rest.as_str());
    out
}

/// The report of a failed run of `program`.
fn report_of(program: &String, stdout: &String, stderr: &String) -> (out: String)
    ensures
        out@ == tool_report(program@, stdout@, stderr@),
{
    let mut out = program.clone();
    out.append(" failed\nstdout: ");
    out.append(stdout.as_str());
    out.append("\nstderr: ");
    out.append(stderr.as_str());
    out
}

impl ProvisionError {
    /// The line shown to the operator for this error.
    pub fn message(&self) -> (out: String)
        ensures
            out@ == self@.message(),
    {
        match self {
            ProvisionError::InvalidFormat { input } => prefixed(
                "Version must be of the format: X.Y.Z, got: ",
                input,
            ),
            ProvisionError::NotFound { name, variable } => {
                let mut out = prefixed("Could not find any ", name);
                out.append("/libs in ");
                out.append(variable.as_str());
                out
            },
            ProvisionError::FetchError { url } => prefixed("Could not fetch ", url),
            ProvisionError::ExtractionError { path } => prefixed(
                "Could not extract the archive into ",
                path,
            ),
            ProvisionError::CopyError { path } => prefixed(
                "Could not copy the host libraries into ",
                path,
            ),
            ProvisionError::PatchError { path } => prefixed("Could not enable import site in ", path),
            ProvisionError::ToolExecutionError { program, stdout, stderr } => report_of(
                program,
                stdout,
                stderr,
            ),
            ProvisionError::ExternalToolError { program, stdout, stderr } => report_of(
                program,
                stdout,
                stderr,
            ),
            ProvisionError::MissingEnvironment { variable } => {
                let mut out = prefixed("missing ", variable);
                out.append(" env");
                out
            },
        }
    }
}

} // verus!
