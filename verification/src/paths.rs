//! Paths as text: how a directory and a name are joined, and the search
//! path handed to child processes.
//!
//! The library never touches the file system. It receives paths as strings
//! and composes them by the rules of a `PathStyle`, so that the same inputs
//! give the same paths on every machine. It only ever adds a name to a
//! directory; it does not take paths apart.

use vstd::prelude::*;
use vstd::string::StringExecFns;
use vstd::string::StrSliceExecFns;

verus! {

/// The name of the environment variable that holds the search path.
pub const SEARCH_PATH_VARIABLE: &'static str = "PATH";

/// The path conventions of a platform.
#[derive(Clone, Copy, Debug, PartialEq, Eq, Structural)]
pub enum PathStyle {
    /// `/` between components, `:` between the entries of a search path.
    Unix,
    /// `\` between components (`/` is understood too), `;` between the
    /// entries of a search path.
    Windows,
}

impl PathStyle {
    /// Whether `c` ends a path component.
    pub open spec fn is_separator(self, c: char) -> bool {
        match self {
            PathStyle::Unix => c == '/',
            PathStyle::Windows => c == '\\' || c == '/',
        }
    }

    /// The character written between a directory and a name.
    pub open spec fn main_separator(self) -> char {
        match self {
            PathStyle::Unix => '/',
            PathStyle::Windows => '\\',
        }
    }

    /// The character written between the entries of a search path.
    pub open spec fn list_separator(self) -> char {
        match self {
            PathStyle::Unix => ':',
            PathStyle::Windows => ';',
        }
    }

    /// Whether `c` ends a path component.
    pub fn separates(self, c: char) -> (b: bool)
        ensures
            b == self.is_separator(c),
    {
        match self {
            PathStyle::Unix => c == '/',
            PathStyle::Windows => c == '\\' || c == '/',
        }
    }

    /// The character written between a directory and a name, as a string.
    pub fn main_separator_str(self) -> (s: &'static str)
        ensures
            s@ == seq![self.main_separator()],
    {
        proof {
            reveal_strlit("/");
            reveal_strlit("\\");
        }
        let s: &'static str = match self {
            PathStyle::Unix => "/",
            PathStyle::Windows => "\\",
        };
        assert(s@ =~= seq![self.main_separator()]);
        s
    }

    /// The character written between the entries of a search path, as a string.
    pub fn list_separator_str(self) -> (s: &'static str)
        ensures
            s@ == seq![self.list_separator()],
    {
        proof {
            reveal_strlit(":");
            reveal_strlit(";");
        }
        let s: &'static str = match self {
            PathStyle::Unix => ":",
            PathStyle::Windows => ";",
        };
        assert(s@ =~= seq![self.list_separator()]);
        s
    }
}

/// Whether `c` is an ASCII letter.
pub open spec fn is_ascii_letter(c: char) -> bool {
    'a' <= c <= 'z' || 'A' <= c <= 'Z'
}

/// Whether `dir` is a drive and nothing else, such as `C:`. A name added to
/// it stays relative to the current directory of that drive.
pub open spec fn is_bare_drive(dir: Seq<char>, style: PathStyle) -> bool {
    style is Windows && dir.len() == 2 && is_ascii_letter(dir[0]) && dir[1] == ':'
}

/// Whether a name is written directly behind `dir`, with no separator
/// between them: `dir` is empty, already ends in a separator, or is a bare
/// drive.
pub open spec fn joins_directly(dir: Seq<char>, style: PathStyle) -> bool {
    dir.len() == 0 || style.is_separator(dir.last()) || is_bare_drive(dir, style)
}

/// The path of the entry `name` of the directory `dir`, for a `name` that
/// is a single relative component: the two joined by the main separator,
/// which is left out where `joins_directly(dir, style)`. The directory is
/// taken as it is written: nothing in it is normalised.
pub open spec fn child_path(dir: Seq<char>, name: Seq<char>, style: PathStyle) -> Seq<char> {
    if joins_directly(dir, style) {
        dir + name
    } else {
        dir.push(style.main_separator()) + name
    }
}

/// The search path for child processes: the target directory, then its
/// `Scripts` directory, with the platform's list separator between them.
pub open spec fn env_path_value(dist_dir: Seq<char>, style: PathStyle) -> Seq<char> {
    dist_dir.push(style.list_separator()) + child_path(dist_dir, "Scripts"@, style)
}

/// The path of the package manager's executable inside the target
/// directory. Its presence marks an environment that is already assembled.
pub open spec fn marker_path_value(dist_dir: Seq<char>, style: PathStyle) -> Seq<char> {
    child_path(child_path(dist_dir, "Scripts"@, style), "pip.exe"@, style)
}

/// Whether `dir` is a drive and nothing else.
fn bare_drive(dir: &str, style: PathStyle) -> (b: bool)
    ensures
        b == is_bare_drive(dir@, style),
{
    match style {
        PathStyle::Unix => false,
        PathStyle::Windows => {
            if dir.unicode_len() != 2 {
                return false;
            }
            let letter: char = dir.get_char(0);
            let colon: char = dir.get_char(1);
            (('a' <= letter && letter <= 'z') || ('A' <= letter && letter <= 'Z')) && colon == ':'
        },
    }
}

/// The path of the entry `name` of the directory `dir`. The library calls
/// it with its own fixed names only.
pub(crate) fn join_path(dir: &str, name: &str, style: PathStyle) -> (out: String)
    ensures
        out@ == child_path(dir@, name@, style),
{
    let n: usize = dir.unicode_len();
    let mut out = String::from_str(dir);
    if n > 0 && !style.separates(dir.get_char(n - 1)) && !bare_drive(dir, style) {
        out.append(style.main_separator_str());
    }
    out.append(name);
    assert(out@ =~= child_path(dir@, name@, style));
    out
}

/// The search path handed to the interpreter and to the package manager, so
/// that they find the target directory's programs before the host's. The
/// library only computes the value: the caller passes it to the child
/// process and leaves its own environment alone.
pub fn dist_env_path(dist_dir: &str, style: PathStyle) -> (out: String)
    ensures
        out@ == env_path_value(dist_dir@, style),
{
    let scripts = join_path(dist_dir, "Scripts", style);
    let mut out = String::from_str(dist_dir);
    out.append(style.list_separator_str());
    out.append(scripts.as_str());
    assert(out@ =~= env_path_value(dist_dir@, style));
    out
}

/// The path whose presence as a file marks an assembled environment.
pub fn marker_path(dist_dir: &str, style: PathStyle) -> (out: String)
    ensures
        out@ == marker_path_value(dist_dir@, style),
{
    let scripts = join_path(dist_dir, "Scripts", style);
    join_path(scripts.as_str(), "pip.exe", style)
}

} // verus!
