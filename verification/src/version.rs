//! The interpreter version: a triple read from text of the shape `X.Y.Z`.

use vstd::prelude::*;
use vstd::string::StringExecFns;
use crate::error::{ProvisionError, ProvisionErrorView};
use crate::process::{Invocation, InvocationView, ToolOutcome};
use crate::text::{
    all_digits, chars_of, copy_range, decimal, digits_value, is_canonical_numeral, is_digit,
    join_with, lemma_canonical_is_decimal, lemma_decimal_denotes, lemma_digits_exclude,
    lemma_join_split, lemma_split_extend, lemma_split_separator, lemma_split_single,
    lemma_trimmed_unchanged, parse_number, parse_u64, parts_view, push_decimal, split_chars,
    split_on, strings_view, trim_bounds, trimmed,
};

verus! {

/// The version of an interpreter: major, minor and patch number.
#[derive(Clone, Copy, Debug, PartialEq, Eq, Structural)]
pub struct VersionTriple {
    pub major: u64,
    pub minor: u64,
    pub patch: u64,
}

/// What reading `s` as a version gives. White space around `s` is ignored;
/// what is left is split at each `.`, there must be exactly three parts, and
/// each must be a number that an unsigned 64-bit integer holds.
pub open spec fn parse_version(s: Seq<char>) -> Option<VersionTriple> {
    let parts = split_on(trimmed(s), '.');
    if parts.len() == 3 && parse_u64(parts[0]) is Some && parse_u64(parts[1]) is Some && parse_u64(
        parts[2],
    ) is Some {
        Some(
            VersionTriple {
                major: parse_u64(parts[0])->0,
                minor: parse_u64(parts[1])->0,
                patch: parse_u64(parts[2])->0,
            },
        )
    } else {
        None
    }
}

/// The three numerals `major`, `minor` and `patch` written as `X.Y.Z`.
pub open spec fn dotted(major: Seq<char>, minor: Seq<char>, patch: Seq<char>) -> Seq<char> {
    major.push('.') + minor.push('.') + patch
}

/// `v` written as `X.Y.Z`, each number as its shortest decimal numeral.
pub open spec fn version_text(v: VersionTriple) -> Seq<char> {
    dotted(decimal(v.major as nat), decimal(v.minor as nat), decimal(v.patch as nat))
}

/// Reads a version of the shape `X.Y.Z`. White space around it is ignored,
/// so that the output of an interpreter, which ends in a line break, can be
/// read as it is.
///
/// Fails with `InvalidFormat`, which carries `s`, on every other string:
/// fewer or more than three parts, or a part that is not a number.
pub fn python_version_from_str(s: &str) -> (r: Result<VersionTriple, ProvisionError>)
    ensures
        match parse_version(s@) {
            Some(v) => r == Ok::<VersionTriple, ProvisionError>(v),
            None => r matches Err(e) && e@ == (ProvisionErrorView::InvalidFormat { input: s@ }),
        },
{
    let all = chars_of(s);
    let (from, to) = trim_bounds(&all);
    let kept = copy_range(&all, from, to);
    let parts = split_chars(&kept, '.');
    assert(parts_view(parts@) == split_on(trimmed(s@), '.'));
    assert(parts_view(parts@).len() == parts.len());
    if parts.len() == 3 {
        assert(parts_view(parts@)[0] == parts[0]@);
        assert(parts_view(parts@)[1] == parts[1]@);
        assert(parts_view(parts@)[2] == parts[2]@);
        match (parse_number(&parts[0]), parse_number(&parts[1]), parse_number(&parts[2])) {
            (Some(major), Some(minor), Some(patch)) => {
                return Ok(VersionTriple { major, minor, patch });
            },
            _ => {},
        }
    }
    Err(ProvisionError::InvalidFormat { input: String::from_str(s) })
}

/// The run that asks the host interpreter for its version: it prints major,
/// minor and patch number joined by `.` on its standard output.
pub open spec fn probe_command_value() -> InvocationView {
    InvocationView {
        program: "python"@,
        args: seq![
            "-c"@,
            "import sys; print('.'.join(str(x) for x in sys.version_info[:3]))"@,
        ],
        search_path: None,
    }
}

/// What the answer of the host interpreter gives as the version.
pub open spec fn probed_version(outcome: ToolOutcome) -> Result<VersionTriple, ProvisionErrorView> {
    if outcome.succeeded() {
        match parse_version(outcome.captured_stdout()) {
            Some(v) => Ok(v),
            None => Err(ProvisionErrorView::InvalidFormat { input: outcome.captured_stdout() }),
        }
    } else {
        Err(
            ProvisionErrorView::ExternalToolError {
                program: "python"@,
                stdout: outcome.captured_stdout(),
                stderr: outcome.captured_stderr(),
            },
        )
    }
}

/// The run that asks the host interpreter for its version.
pub fn version_probe_command() -> (command: Invocation)
    ensures
        command@ == probe_command_value(),
{
    let mut args: Vec<String> = Vec::new();
    args.push(String::from_str("-c"));
    args.push(
        String::from_str("import sys; print('.'.join(str(x) for x in sys.version_info[:3]))"),
    );
    assert(strings_view(args@) =~= probe_command_value().args);
    Invocation { program: String::from_str("python"), args, search_path: None }
}

/// The version of the host interpreter, from the outcome of the run that
/// `version_probe_command` describes.
///
/// Fails with `ExternalToolError`, which carries what was captured, where
/// the interpreter did not start or did not exit with code zero, and with
/// `InvalidFormat`, which carries its output, where that output is no
/// version.
pub fn default_python_version(outcome: &ToolOutcome) -> (r: Result<VersionTriple, ProvisionError>)
    ensures
        match r {
            Ok(v) => probed_version(*outcome) == Ok::<VersionTriple, ProvisionErrorView>(v),
            Err(e) => probed_version(*outcome) == Err::<VersionTriple, ProvisionErrorView>(e@),
        },
{
    if outcome.is_success() {
        let stdout = outcome.stdout_text();
        python_version_from_str(stdout.as_str())
    } else {
        Err(
            ProvisionError::ExternalToolError {
                program: String::from_str("python"),
                stdout: outcome.stdout_text(),
                stderr: outcome.stderr_text(),
            },
        )
    }
}

impl VersionTriple {
    /// This version written as `X.Y.Z`.
    pub fn text(&self) -> (out: String)
        ensures
            out@ == version_text(*self),
    {
        let mut out = String::new();
        push_decimal(&mut out, self.major);
        out.append(".");
        push_decimal(&mut out, self.minor);
        out.append(".");
        push_decimal(&mut out, self.patch);
        proof {
            reveal_strlit(".");
            assert("."@ =~= seq!['.']);
            assert(out@ =~= version_text(*self));
        }
        out
    }
}

/// Three numerals without a `.` in them, written as `X.Y.Z`, split into
/// exactly those three.
proof fn lemma_dotted_splits(major: Seq<char>, minor: Seq<char>, patch: Seq<char>)
    requires
        all_digits(major),
        all_digits(minor),
        all_digits(patch),
    ensures
        split_on(dotted(major, minor, patch), '.') == seq![major, minor, patch],
{
    let empty = Seq::<char>::empty();
    lemma_digits_exclude(major, '.');
    lemma_digits_exclude(minor, '.');
    lemma_digits_exclude(patch, '.');
    lemma_split_single(major, '.');
    lemma_split_separator(major, '.');
    let one = major.push('.');
    assert(split_on(one, '.') == seq![major, empty]);
    lemma_split_extend(one, minor, '.');
    assert(split_on(one + minor, '.') == seq![major, minor]) by {
        assert(empty + minor == minor);
        assert(seq![major, empty].drop_last().push(minor) == seq![major, minor]);
    }
    lemma_split_separator(one + minor, '.');
    let two = (one + minor).push('.');
    assert(split_on(two, '.') == seq![major, minor, empty]);
    lemma_split_extend(two, patch, '.');
    assert(split_on(two + patch, '.') == seq![major, minor, patch]) by {
        assert(empty + patch == patch);
        assert(seq![major, minor, empty].drop_last().push(patch) == seq![major, minor, patch]);
    }
    assert(two + patch == dotted(major, minor, patch));
}

/// A string of digits is read as the number it denotes, if that fits in 64
/// bits.
proof fn lemma_parse_digits(s: Seq<char>)
    requires
        s.len() > 0,
        all_digits(s),
        digits_value(s) <= u64::MAX,
    ensures
        parse_u64(s) == Some(digits_value(s) as u64),
{
    assert(is_digit(s[0]));
}

/// Reading three in-range digit strings written as `X.Y.Z` gives the
/// numbers they denote.
proof fn lemma_parse_dotted(major: Seq<char>, minor: Seq<char>, patch: Seq<char>)
    requires
        major.len() > 0 && all_digits(major) && digits_value(major) <= u64::MAX,
        minor.len() > 0 && all_digits(minor) && digits_value(minor) <= u64::MAX,
        patch.len() > 0 && all_digits(patch) && digits_value(patch) <= u64::MAX,
    ensures
        parse_version(dotted(major, minor, patch)) == Some(
            VersionTriple {
                major: digits_value(major) as u64,
                minor: digits_value(minor) as u64,
                patch: digits_value(patch) as u64,
            },
        ),
{
    let text = dotted(major, minor, patch);
    assert(text[0] == major[0]);
    assert(text.last() == patch.last());
    assert(is_digit(major[0]) && is_digit(patch.last()));
    lemma_trimmed_unchanged(text);
    lemma_dotted_splits(major, minor, patch);
    lemma_parse_digits(major);
    lemma_parse_digits(minor);
    lemma_parse_digits(patch);
}

/// Whether `s` is a well-formed version string: split at each `.` it gives
/// exactly three parts, each the shortest decimal numeral of a number. So no
/// white space, no sign and no leading zero. The numbers are not bounded.
pub open spec fn is_well_formed(s: Seq<char>) -> bool {
    let parts = split_on(s, '.');
    &&& parts.len() == 3
    &&& forall|i: int| 0 <= i < 3 ==> is_canonical_numeral(#[trigger] parts[i])
}

/// Whether each of the three numbers of the well-formed version string `s`
/// is one that a `VersionTriple` can hold.
pub open spec fn is_representable(s: Seq<char>) -> bool {
    let parts = split_on(s, '.');
    forall|i: int| 0 <= i < 3 ==> digits_value(#[trigger] parts[i]) <= u64::MAX
}

/// Writing a version gives a well-formed string that a `VersionTriple` can
/// hold, and reading that string gives the version back.
pub proof fn lemma_write_then_read(v: VersionTriple)
    ensures
        is_well_formed(version_text(v)),
        is_representable(version_text(v)),
        parse_version(version_text(v)) == Some(v),
{
    let major = decimal(v.major as nat);
    let minor = decimal(v.minor as nat);
    let patch = decimal(v.patch as nat);
    lemma_decimal_denotes(v.major as nat);
    lemma_decimal_denotes(v.minor as nat);
    lemma_decimal_denotes(v.patch as nat);
    lemma_parse_dotted(major, minor, patch);
    lemma_dotted_splits(major, minor, patch);
}

/// A well-formed version string is its three parts written as `X.Y.Z`, and
/// has no white space to trim.
proof fn lemma_well_formed_is_dotted(s: Seq<char>)
    requires
        is_well_formed(s),
    ensures
        s == dotted(split_on(s, '.')[0], split_on(s, '.')[1], split_on(s, '.')[2]),
        trimmed(s) == s,
{
    let parts = split_on(s, '.');
    let major = parts[0];
    let minor = parts[1];
    let patch = parts[2];
    assert(is_canonical_numeral(parts[0]) && is_canonical_numeral(parts[1])
        && is_canonical_numeral(parts[2]));
    lemma_join_split(s, '.');
    let two = parts.drop_last();
    let one = two.drop_last();
    assert(join_with(one, '.') == major);
    assert(join_with(two, '.') == major.push('.') + minor);
    assert(join_with(parts, '.') == (major.push('.') + minor).push('.') + patch);
    assert((major.push('.') + minor).push('.') + patch == dotted(major, minor, patch));
    let text = dotted(major, minor, patch);
    assert(text[0] == major[0]);
    assert(text.last() == patch.last());
    assert(is_digit(major[0]) && is_digit(patch.last()));
    lemma_trimmed_unchanged(text);
}

/// Reading a well-formed version string and writing the result gives the
/// same string, whatever its numbers are, as long as a `VersionTriple` can
/// hold them.
pub proof fn lemma_read_then_write(s: Seq<char>)
    requires
        is_well_formed(s),
        is_representable(s),
    ensures
        parse_version(s) matches Some(v) && version_text(v) == s,
{
    let parts = split_on(s, '.');
    let major = parts[0];
    let minor = parts[1];
    let patch = parts[2];
    assert(is_canonical_numeral(parts[0]) && is_canonical_numeral(parts[1])
        && is_canonical_numeral(parts[2]));
    assert(digits_value(parts[0]) <= u64::MAX && digits_value(parts[1]) <= u64::MAX
        && digits_value(parts[2]) <= u64::MAX);
    lemma_well_formed_is_dotted(s);
    lemma_parse_dotted(major, minor, patch);
    lemma_canonical_is_decimal(major);
    lemma_canonical_is_decimal(minor);
    lemma_canonical_is_decimal(patch);
}

/// A well-formed version string with a number that no `VersionTriple` can
/// hold is refused: it is never read as another version.
pub proof fn lemma_unrepresentable_is_refused(s: Seq<char>)
    requires
        is_well_formed(s),
        !is_representable(s),
    ensures
        parse_version(s) is None,
{
    let parts = split_on(s, '.');
    lemma_well_formed_is_dotted(s);
    let i = choose|i: int| 0 <= i < 3 && digits_value(#[trigger] parts[i]) > u64::MAX;
    assert(is_canonical_numeral(parts[i]));
    assert(is_digit(parts[i][0]));
    assert(parse_u64(parts[i]) is None);
}

} // verus!
