//! The assembly of an environment, settled before anything is done.
//!
//! Everything that the assembly needs is computed from the version, the
//! target directory and the search path: where the host libraries are,
//! what is downloaded, which file is patched and what is run. The caller
//! then does the work in the order of `workflow::assembly`. Where the host
//! has no installation to take libraries from, there is no assembly at all,
//! and so nothing that could be downloaded.

use vstd::prelude::*;
use crate::bootstrap::{
    bootstrap_command, bootstrap_command_value, bootstrap_script_path, script_path_value,
};
use crate::error::{ProvisionError, ProvisionErrorView};
use crate::fetch::{
    archive_address, archive_address_text, fetch_address, parsed_url, GET_PIP_URL,
};
use crate::locate::{
    host_dir_name, host_python_dir, is_first_qualifying, libs_path, none_qualifies,
    search_variable, SearchEntry,
};
use crate::patch::{config_file_name, config_name};
use crate::paths::{child_path, join_path, PathStyle};
use crate::process::{Invocation, InvocationView};
use crate::version::VersionTriple;

verus! {

/// What the assembly of one environment works with.
#[derive(Clone, Debug, PartialEq, Eq)]
pub struct Assembly {
    /// The host directory whose entries are merged into the target directory.
    pub host_libs: String,
    /// The URL of the embeddable archive.
    pub archive_url: String,
    /// The configuration file in which `import site` is put in force.
    pub config_path: String,
    /// The URL of the installer script.
    pub installer_url: String,
    /// Where the installer script is saved.
    pub installer_script: String,
    /// The run that installs the package manager.
    pub bootstrap: Invocation,
}

/// An `Assembly` with its strings as character sequences.
pub struct AssemblyView {
    pub host_libs: Seq<char>,
    pub archive_url: Seq<char>,
    pub config_path: Seq<char>,
    pub installer_url: Seq<char>,
    pub installer_script: Seq<char>,
    pub bootstrap: InvocationView,
}

impl View for Assembly {
    type V = AssemblyView;

    open spec fn view(&self) -> AssemblyView {
        AssemblyView {
            host_libs: self.host_libs@,
            archive_url: self.archive_url@,
            config_path: self.config_path@,
            installer_url: self.installer_url@,
            installer_script: self.installer_script@,
            bootstrap: self.bootstrap@,
        }
    }
}

/// The assembly of version `v` in `dist_dir`, given the host library
/// directory and the two URLs.
pub open spec fn assembly_value(
    v: VersionTriple,
    dist_dir: Seq<char>,
    host_libs: Seq<char>,
    archive_url: Seq<char>,
    installer_url: Seq<char>,
    style: PathStyle,
) -> AssemblyView {
    AssemblyView {
        host_libs,
        archive_url,
        config_path: child_path(dist_dir, config_name(v), style),
        installer_url,
        installer_script: script_path_value(dist_dir, style),
        bootstrap: bootstrap_command_value(dist_dir, style),
    }
}

/// What stands in the way of an assembly, if anything does. The search
/// path is looked at first, then the host installation, then the two
/// addresses.
pub open spec fn assembly_obstacle(
    v: VersionTriple,
    search_path: Option<Seq<SearchEntry>>,
) -> Option<ProvisionErrorView> {
    match search_path {
        None => Some(ProvisionErrorView::MissingEnvironment { variable: search_variable() }),
        Some(entries) => {
            if none_qualifies(entries, host_dir_name(v)) {
                Some(
                    ProvisionErrorView::NotFound {
                        name: host_dir_name(v),
                        variable: search_variable(),
                    },
                )
            } else if parsed_url(archive_address(v)) is None {
                Some(ProvisionErrorView::FetchError { url: archive_address(v) })
            } else if parsed_url(GET_PIP_URL@) is None {
                Some(ProvisionErrorView::FetchError { url: GET_PIP_URL@ })
            } else {
                None
            }
        },
    }
}

/// The assembly of `version` in `dist_dir`, given the host library
/// directory and the two URLs.
pub fn assemble(
    version: &VersionTriple,
    dist_dir: &str,
    host_libs: String,
    archive_url: String,
    installer_url: String,
    style: PathStyle,
) -> (assembly: Assembly)
    ensures
        assembly@ == assembly_value(
            *version,
            dist_dir@,
            host_libs@,
            archive_url@,
            installer_url@,
            style,
        ),
{
    let name = config_file_name(version);
    Assembly {
        host_libs,
        archive_url,
        config_path: join_path(dist_dir, name.as_str(), style),
        installer_url,
        installer_script: bootstrap_script_path(dist_dir, style),
        bootstrap: bootstrap_command(dist_dir, style),
    }
}

/// Settles the assembly of an environment of `version` in `dist_dir`.
///
/// `search_path` is as for `host_python_dir`. The host libraries are those
/// of the first entry that qualifies; the URLs are the archive's address
/// and the installer's, as the URL parser writes them.
///
/// Fails with what `assembly_obstacle` names: `MissingEnvironment` without
/// a search path, `NotFound` where no entry qualifies, `FetchError` where
/// the URL parser refuses an address.
pub fn create_embedded_env(
    version: &VersionTriple,
    dist_dir: &str,
    search_path: Option<&Vec<SearchEntry>>,
    style: PathStyle,
) -> (r: Result<Assembly, ProvisionError>)
    ensures
        match r {
            Ok(assembly) => {
                &&& search_path matches Some(entries)
                &&& parsed_url(archive_address(*version)) matches Some(archive_url)
                &&& parsed_url(GET_PIP_URL@) matches Some(installer_url)
                &&& exists|at: int|
                    #[trigger] is_first_qualifying(entries@, at, host_dir_name(*version))
                        && assembly@ == assembly_value(
                        *version,
                        dist_dir@,
                        libs_path(entries[at].dir@, style),
                        archive_url,
                        installer_url,
                        style,
                    )
            },
            Err(e) => assembly_obstacle(
                *version,
                match search_path {
                    Some(entries) => Some(entries@),
                    None => None,
                },
            ) == Some(e@),
        },
{
    let host_libs = match host_python_dir(version, search_path, style) {
        Ok(libs) => libs,
        Err(e) => {
            return Err(e);
        },
    };
    let address = archive_address_text(version);
    let archive_url = match fetch_address(address.as_str()) {
        Ok(url) => url,
        Err(e) => {
            return Err(e);
        },
    };
    let installer_url = match fetch_address(GET_PIP_URL) {
        Ok(url) => url,
        Err(e) => {
            return Err(e);
        },
    };
    Ok(assemble(version, dist_dir, host_libs, archive_url, installer_url, style))
}

} // verus!
