//! Installing the declared dependencies with the package manager.
//!
//! The manifest is handed to the package manager as it is: the library
//! neither reads it nor checks that it exists.

use vstd::prelude::*;
use vstd::string::StringExecFns;
use crate::paths::{dist_env_path, env_path_value, PathStyle};
use crate::process::{Invocation, InvocationView};
use crate::text::strings_view;

verus! {

/// The run that installs from a manifest: the package manager with
/// `install -r` and the manifest's path, and with the search path that puts
/// the target directory first.
pub open spec fn requirements_command_value(
    pip_path: Seq<char>,
    dist_dir: Seq<char>,
    reqs_path: Seq<char>,
    style: PathStyle,
) -> InvocationView {
    InvocationView {
        program: pip_path,
        args: seq!["install"@, "-r"@, reqs_path],
        search_path: Some(env_path_value(dist_dir, style)),
    }
}

/// The run that installs what the manifest at `reqs_path` declares, with
/// the package manager at `pip_path` of the environment in `dist_dir`.
pub fn requirements_command(pip_path: &str, dist_dir: &str, reqs_path: &str, style: PathStyle) -> (command:
    Invocation)
    ensures
        command@ == requirements_command_value(pip_path@, dist_dir@, reqs_path@, style),
{
    let mut args: Vec<String> = Vec::new();
    args.push(String::from_str("install"));
    args.push(String::from_str("-r"));
    args.push(String::from_str(reqs_path));
    assert(strings_view(args@) =~= seq!["install"@, "-r"@, reqs_path@]);
    Invocation {
        program: String::from_str(pip_path),
        args,
        search_path: Some(dist_env_path(dist_dir, style)),
    }
}

} // verus!
