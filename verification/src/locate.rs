//! Finding the host installation whose libraries are merged into the
//! environment.
//!
//! The caller reads the process search path, takes each entry's last
//! component as the platform reads paths, and looks at the disk; the choice
//! among the entries is made here.

use vstd::prelude::*;
use vstd::string::StringExecFns;
use crate::error::{ProvisionError, ProvisionErrorView};
use crate::paths::{child_path, join_path, PathStyle, SEARCH_PATH_VARIABLE};
use crate::text::{decimal, push_decimal};
use crate::version::VersionTriple;

verus! {

/// One entry of the process search path, with what the caller found out
/// about it.
#[derive(Clone, Debug, PartialEq, Eq)]
pub struct SearchEntry {
    /// The directory that the entry names, as it stands in the search path.
    pub dir: String,
    /// The last component of `dir` as the platform reads paths: separators
    /// and `.` components at the end do not count. `None` where `dir` has no
    /// such component, as a root has none and a path that ends in `..`.
    pub name: Option<String>,
    /// Whether `libs_candidate(dir)` exists and is a directory.
    pub has_libs: bool,
}

/// A `SearchEntry` with its strings as character sequences.
pub struct SearchEntryView {
    pub dir: Seq<char>,
    pub name: Option<Seq<char>>,
    pub has_libs: bool,
}

impl View for SearchEntry {
    type V = SearchEntryView;

    open spec fn view(&self) -> SearchEntryView {
        SearchEntryView {
            dir: self.dir@,
            name: match self.name {
                Some(name) => Some(name@),
                None => None,
            },
            has_libs: self.has_libs,
        }
    }
}

/// The name of the environment variable that holds the search path.
pub open spec fn search_variable() -> Seq<char> {
    SEARCH_PATH_VARIABLE@
}

/// The directory name of a host installation of version `v`: `Python`, then
/// the major and the minor number, each as its shortest decimal numeral and
/// with nothing between them. So 3.9 gives `Python39` and 3.10 `Python310`.
pub open spec fn host_dir_name(v: VersionTriple) -> Seq<char> {
    "Python"@ + decimal(v.major as nat) + decimal(v.minor as nat)
}

/// Where the libraries of the host installation `dir` are looked for.
pub open spec fn libs_path(dir: Seq<char>, style: PathStyle) -> Seq<char> {
    child_path(dir, "libs"@, style)
}

/// Whether `entry` is a host installation called `name` that holds a
/// library directory.
pub open spec fn qualifies(entry: SearchEntryView, name: Seq<char>) -> bool {
    entry.name == Some(name) && entry.has_libs
}

/// Whether `entries[at]` is the first entry that qualifies.
pub open spec fn is_first_qualifying(entries: Seq<SearchEntry>, at: int, name: Seq<char>) -> bool {
    &&& 0 <= at < entries.len()
    &&& qualifies(entries[at]@, name)
    &&& forall|earlier: int| 0 <= earlier < at ==> !qualifies(#[trigger] entries[earlier]@, name)
}

/// Whether no entry qualifies.
pub open spec fn none_qualifies(entries: Seq<SearchEntry>, name: Seq<char>) -> bool {
    forall|at: int| 0 <= at < entries.len() ==> !qualifies(#[trigger] entries[at]@, name)
}

/// The directory name of a host installation of `version`.
pub fn host_directory_name(version: &VersionTriple) -> (out: String)
    ensures
        out@ == host_dir_name(*version),
{
    let mut out = String::from_str("Python");
    push_decimal(&mut out, version.major);
    push_decimal(&mut out, version.minor);
    out
}

/// Where the libraries of the host installation `dir` are looked for.
pub fn libs_candidate(dir: &str, style: PathStyle) -> (out: String)
    ensures
        out@ == libs_path(dir@, style),
{
    join_path(dir, "libs", style)
}

/// Whether `entry` is a host installation called `name` that holds a
/// library directory.
fn entry_qualifies(entry: &SearchEntry, name: &String) -> (b: bool)
    ensures
        b == qualifies(entry@, name@),
{
    match &entry.name {
        Some(last) => entry.has_libs && *last == *name,
        None => false,
    }
}

/// The index of the first entry that qualifies, if one does.
fn first_qualifying(entries: &Vec<SearchEntry>, name: &String) -> (found: Option<usize>)
    ensures
        match found {
            Some(at) => is_first_qualifying(entries@, at as int, name@),
            None => none_qualifies(entries@, name@),
        },
{
    let mut i: usize = 0;
    while i < entries.len()
        invariant
            i <= entries.len(),
            forall|earlier: int| 0 <= earlier < i ==> !qualifies(#[trigger] entries[earlier]@, name@),
        decreases entries.len() - i,
    {
        if entry_qualifies(&entries[i], name) {
            return Some(i);
        }
        i += 1;
    }
    None
}

/// The library directory of the host installation of `version`.
///
/// `search_path` holds the entries of the search path in their order, or
/// `None` where the environment has no such variable. The result is the
/// library directory of the first entry that is named like a host
/// installation of `version` and has a library directory. Entries with the
/// right name and no library directory are passed over.
///
/// Fails with `MissingEnvironment` where there is no search path, and with
/// `NotFound`, which names the directory looked for and the variable, where
/// no entry qualifies.
pub fn host_python_dir(
    version: &VersionTriple,
    search_path: Option<&Vec<SearchEntry>>,
    style: PathStyle,
) -> (r: Result<String, ProvisionError>)
    ensures
        match search_path {
            None => r matches Err(e) && e@ == (ProvisionErrorView::MissingEnvironment {
                variable: search_variable(),
            }),
            Some(entries) => match r {
                Ok(libs) => exists|at: int|
                    #[trigger] is_first_qualifying(entries@, at, host_dir_name(*version))
                        && libs@ == libs_path(entries[at].dir@, style),
                Err(e) => {
                    &&& none_qualifies(entries@, host_dir_name(*version))
                    &&& e@ == (ProvisionErrorView::NotFound {
                        name: host_dir_name(*version),
                        variable: search_variable(),
                    })
                },
            },
        },
{
    match search_path {
        None => Err(ProvisionError::MissingEnvironment { variable: String::from_str(SEARCH_PATH_VARIABLE) }),
        Some(entries) => {
            let name = host_directory_name(version);
            match first_qualifying(entries, &name) {
                Some(at) => Ok(libs_candidate(entries[at].dir.as_str(), style)),
                None => Err(ProvisionError::NotFound { name, variable: String::from_str(SEARCH_PATH_VARIABLE) }),
            }
        },
    }
}

} // verus!
