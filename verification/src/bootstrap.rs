//! Installing the package manager into the assembled environment.
//!
//! The installer script is saved in the target directory and run by the
//! target directory's own interpreter.

use vstd::prelude::*;
use vstd::string::StringExecFns;
use crate::paths::{child_path, dist_env_path, env_path_value, join_path, PathStyle};
use crate::process::{Invocation, InvocationView};
use crate::text::strings_view;

verus! {

/// Where the installer script is saved.
pub open spec fn script_path_value(dist_dir: Seq<char>, style: PathStyle) -> Seq<char> {
    child_path(dist_dir, "get-pip.py"@, style)
}

/// The interpreter of the target directory.
pub open spec fn interpreter_path_value(dist_dir: Seq<char>, style: PathStyle) -> Seq<char> {
    child_path(dist_dir, "python"@, style)
}

/// The run that installs the package manager: the target directory's
/// interpreter, on the saved script, told not to warn that scripts land
/// outside the search path, and with the search path that puts the target
/// directory first.
pub open spec fn bootstrap_command_value(dist_dir: Seq<char>, style: PathStyle) -> InvocationView {
    InvocationView {
        program: interpreter_path_value(dist_dir, style),
        args: seq![script_path_value(dist_dir, style), "--no-warn-script-location"@],
        search_path: Some(env_path_value(dist_dir, style)),
    }
}

/// Where the installer script is saved.
pub fn bootstrap_script_path(dist_dir: &str, style: PathStyle) -> (out: String)
    ensures
        out@ == script_path_value(dist_dir@, style),
{
    join_path(dist_dir, "get-pip.py", style)
}

/// The run that installs the package manager into `dist_dir`.
pub fn bootstrap_command(dist_dir: &str, style: PathStyle) -> (command: Invocation)
    ensures
        command@ == bootstrap_command_value(dist_dir@, style),
{
    let mut args: Vec<String> = Vec::new();
    args.push(bootstrap_script_path(dist_dir, style));
    args.push(String::from_str("--no-warn-script-location"));
    assert(strings_view(args@) =~= bootstrap_command_value(dist_dir@, style).args);
    Invocation {
        program: join_path(dist_dir, "python", style),
        args,
        search_path: Some(dist_env_path(dist_dir, style)),
    }
}

} // verus!
