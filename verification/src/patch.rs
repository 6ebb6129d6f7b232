//! The patch that lets the embedded interpreter import `site`.
//!
//! The archive ships a configuration file, named after the version, in which
//! the line `import site` is commented out. Without that line the package
//! manager cannot be installed, so the patch turns the comment into the
//! directive.

use vstd::prelude::*;
use vstd::string::StringExecFns;
use vstd::string::StrSliceExecFns;
use crate::error::{ProvisionError, ProvisionErrorView};
use crate::text::{
    chars_of, contains_text, decimal, find_text, first_occurrence, free_of, is_first_occurrence,
    join_with, lacks, lemma_first_occurrence, lemma_join_around, lemma_join_excludes,
    lemma_join_split, lemma_leftmost_exists, lemma_split_join, lemma_split_parts_free,
    lemma_trimmed_core, lemma_trimmed_range, matches_at, occurs_at, parts_view, push_decimal, replace_first,
    split_chars, split_on, text_after, text_before, trim_bounds, trimmed, is_whitespace,
};
use crate::version::VersionTriple;

verus! {

/// The directive as the archive ships it: commented out.
pub open spec fn commented_directive() -> Seq<char> {
    "#import site"@
}

/// The directive in force.
pub open spec fn active_directive() -> Seq<char> {
    "import site"@
}

/// The name of the configuration file of version `v`: `python`, the major
/// and the minor number with nothing between them, then `._pth`.
pub open spec fn config_name(v: VersionTriple) -> Seq<char> {
    "python"@ + decimal(v.major as nat) + decimal(v.minor as nat) + "._pth"@
}

/// Whether the directive is in force in `text`: one of its lines, white
/// space around it removed, is the active directive. A mention elsewhere,
/// in a comment or inside a longer line, does not count.
pub open spec fn has_active_line(text: Seq<char>) -> bool {
    exists|line: int|
        0 <= line < split_on(text, '\n').len() && trimmed(#[trigger] split_on(text, '\n')[line])
            == active_directive()
}

/// What the patch makes of the configuration text.
///
/// Where the commented directive occurs, its leftmost occurrence is replaced
/// by the active directive and nothing else changes. Where it does not occur
/// but the directive is already in force, the text is already patched and
/// stays as it is, so that provisioning can be run again. In every other
/// text there is nothing to patch: `None`.
pub open spec fn import_site_enabled(text: Seq<char>) -> Option<Seq<char>> {
    if contains_text(text, commented_directive()) {
        Some(replace_first(text, commented_directive(), active_directive()))
    } else if has_active_line(text) {
        Some(text)
    } else {
        None
    }
}

/// Patching a text in which the commented directive stands between `before`
/// and `after`, and nowhere further to the left, gives `before`, the active
/// directive and `after`: the directive is put in force in its place and
/// everything around it stays as it was.
pub proof fn lemma_patch_keeps_the_rest(before: Seq<char>, after: Seq<char>)
    requires
        forall|earlier: int|
            0 <= earlier < before.len() ==> !occurs_at(
                before + commented_directive() + after,
                commented_directive(),
                earlier,
            ),
    ensures
        import_site_enabled(before + commented_directive() + after) == Some(
            before + active_directive() + after,
        ),
{
    let pattern = commented_directive();
    let text = before + pattern + after;
    let at = before.len() as int;
    assert(text.subrange(at, at + pattern.len()) == pattern);
    assert(is_first_occurrence(text, pattern, at));
    lemma_first_occurrence(text, pattern, at);
    assert(text.subrange(0, at) == before);
    assert(text.subrange(at + pattern.len(), text.len() as int) == after);
}

/// Patching changes one line only: the first line that holds the commented
/// directive. In that line the leftmost occurrence of the directive is put in
/// force; every other line, and the line breaks, stay as they were.
pub proof fn lemma_patch_changes_one_line(text: Seq<char>, line: int)
    requires
        0 <= line < split_on(text, '\n').len(),
        contains_text(split_on(text, '\n')[line], commented_directive()),
        forall|above: int|
            0 <= above < line ==> !contains_text(
                #[trigger] split_on(text, '\n')[above],
                commented_directive(),
            ),
    ensures
        import_site_enabled(text) matches Some(patched) && split_on(patched, '\n') == split_on(
            text,
            '\n',
        ).update(
            line,
            replace_first(split_on(text, '\n')[line], commented_directive(), active_directive()),
        ),
{
    let pattern = commented_directive();
    let active = active_directive();
    let lines = split_on(text, '\n');
    let old_line = lines[line];
    let somewhere = choose|somewhere: int| occurs_at(old_line, pattern, somewhere);
    lemma_leftmost_exists(old_line, pattern, somewhere);
    let at = first_occurrence(old_line, pattern);
    let left = old_line.subrange(0, at);
    let right = old_line.subrange(at + pattern.len(), old_line.len() as int);
    let new_line = left + active + right;
    assert(new_line == replace_first(old_line, pattern, active));
    assert(old_line == left + pattern + right);
    let changed = lines.update(line, new_line);
    reveal_strlit("#import site");
    reveal_strlit("import site");
    assert(lacks(pattern, '\n'));
    assert(lacks(active, '\n'));
    lemma_join_split(text, '\n');
    lemma_split_parts_free(text, '\n');
    assert(lacks(lines[line], '\n'));
    assert(lacks(new_line, '\n')) by {
        assert forall|j: int| 0 <= j < new_line.len() implies new_line[j] != '\n' by {
            if j < left.len() {
                assert(new_line[j] == old_line[j]);
            } else if j < left.len() + active.len() {
                assert(new_line[j] == active[j - left.len()]);
            } else {
                assert(new_line[j] == old_line[j + 1]);
            }
        }
    }
    assert(free_of(changed, '\n')) by {
        assert forall|i: int| 0 <= i < changed.len() implies lacks(#[trigger] changed[i], '\n') by {
            if i != line {
                assert(changed[i] == lines[i]);
            }
        }
    }
    lemma_split_join(changed, '\n');

    let before = text_before(lines, line, '\n');
    let after = text_after(lines, line, '\n');
    lemma_join_around(lines, line, '\n');
    lemma_join_around(changed, line, '\n');
    assert(changed.take(line) == lines.take(line));
    assert(changed.skip(line + 1) == lines.skip(line + 1));
    assert(text == (before + left) + pattern + (right + after));
    assert(join_with(changed, '\n') == (before + left) + active + (right + after));

    assert forall|earlier: int| 0 <= earlier < (before + left).len() implies !occurs_at(
        text,
        pattern,
        earlier,
    ) by {
        let above = lines.take(line);
        let head = join_with(above, '\n');
        assert forall|i: int| 0 <= i < above.len() implies !contains_text(
            #[trigger] above[i],
            pattern,
        ) by {
            assert(above[i] == lines[i]);
        }
        lemma_join_excludes(above, '\n', pattern);
        if occurs_at(text, pattern, earlier) {
            let found = text.subrange(earlier, earlier + pattern.len());
            let cut = head.len() as int;
            if earlier >= before.len() {
                let inside = earlier - before.len();
                assert(old_line.subrange(inside, inside + pattern.len()) == found);
                assert(occurs_at(old_line, pattern, inside));
            } else if earlier + pattern.len() <= cut {
                assert(head.subrange(earlier, earlier + pattern.len()) == found);
                assert(occurs_at(head, pattern, earlier));
            } else {
                assert(found[cut - earlier] == text[cut]);
                assert(pattern[cut - earlier] == '\n');
            }
        }
    }
    lemma_patch_keeps_the_rest(before + left, right + after);
}

/// Patching a text in which one line is the commented directive, and no
/// line above it holds that directive, puts the active directive in place of
/// that line and leaves every other line as it was.
pub proof fn lemma_patch_replaces_the_line(text: Seq<char>, line: int)
    requires
        0 <= line < split_on(text, '\n').len(),
        split_on(text, '\n')[line] == commented_directive(),
        forall|above: int|
            0 <= above < line ==> !contains_text(
                #[trigger] split_on(text, '\n')[above],
                commented_directive(),
            ),
    ensures
        import_site_enabled(text) matches Some(patched) && split_on(patched, '\n') == split_on(
            text,
            '\n',
        ).update(line, active_directive()),
{
    let pattern = commented_directive();
    let empty = Seq::<char>::empty();
    assert(pattern.subrange(0, pattern.len() as int) == pattern);
    assert(is_first_occurrence(pattern, pattern, 0));
    lemma_first_occurrence(pattern, pattern, 0);
    assert(pattern.subrange(0, 0) == empty);
    assert(pattern.subrange(pattern.len() as int, pattern.len() as int) == empty);
    assert(empty + active_directive() + empty == active_directive());
    lemma_patch_changes_one_line(text, line);
}

/// A line that is the commented directive but for white space around it
/// holds that directive. With the directive put in force the line is the
/// active directive but for the same white space, and holds the commented
/// directive no more.
proof fn lemma_directive_line(line: Seq<char>)
    requires
        trimmed(line) == commented_directive(),
    ensures
        contains_text(line, commented_directive()),
        trimmed(replace_first(line, commented_directive(), active_directive()))
            == active_directive(),
        !contains_text(
            replace_first(line, commented_directive(), active_directive()),
            commented_directive(),
        ),
{
    let pattern = commented_directive();
    let active = active_directive();
    reveal_strlit("#import site");
    reveal_strlit("import site");
    let (from, to) = lemma_trimmed_range(line);
    assert(occurs_at(line, pattern, from));
    assert forall|earlier: int| 0 <= earlier < from implies !occurs_at(line, pattern, earlier) by {
        if occurs_at(line, pattern, earlier) {
            assert(line.subrange(earlier, earlier + pattern.len())[0] == pattern[0]);
            assert(is_whitespace(line[earlier]));
        }
    }
    assert(is_first_occurrence(line, pattern, from));
    lemma_first_occurrence(line, pattern, from);
    let lead = line.subrange(0, from);
    let trail = line.subrange(to, line.len() as int);
    let new_line = lead + active + trail;
    assert(new_line == replace_first(line, pattern, active));
    assert(active[0] == 'i' && active.last() == 'e');
    lemma_trimmed_core(lead, active, trail);
    assert forall|at: int| !occurs_at(new_line, pattern, at) by {
        if occurs_at(new_line, pattern, at) {
            assert(new_line.subrange(at, at + pattern.len())[0] == pattern[0]);
            assert(new_line[at] == '#');
            if at < lead.len() {
                assert(new_line[at] == line[at]);
            } else if at < lead.len() + active.len() {
                assert(new_line[at] == active[at - lead.len()]);
            } else {
                assert(new_line[at] == line[at + 1]);
            }
        }
    }
}

/// Patching a text in which one line is the commented directive, white
/// space around it not counted, and no line above it holds that directive,
/// puts the directive in force, and the patch accepts what it gave: a second
/// run on the same file does not fail.
pub proof fn lemma_patch_can_be_repeated(text: Seq<char>, line: int)
    requires
        0 <= line < split_on(text, '\n').len(),
        trimmed(split_on(text, '\n')[line]) == commented_directive(),
        forall|above: int|
            0 <= above < line ==> !contains_text(
                #[trigger] split_on(text, '\n')[above],
                commented_directive(),
            ),
    ensures
        import_site_enabled(text) matches Some(patched) && has_active_line(patched)
            && import_site_enabled(patched) is Some,
{
    lemma_directive_line(split_on(text, '\n')[line]);
    lemma_patch_changes_one_line(text, line);
    let patched = import_site_enabled(text)->0;
    assert(trimmed(split_on(patched, '\n')[line]) == active_directive());
}

/// Patching a text in which one line is the commented directive, white
/// space around it not counted, and no other line holds that directive,
/// reaches a text that a second run leaves as it is.
pub proof fn lemma_second_run_changes_nothing(text: Seq<char>, line: int)
    requires
        0 <= line < split_on(text, '\n').len(),
        trimmed(split_on(text, '\n')[line]) == commented_directive(),
        forall|other: int|
            0 <= other < split_on(text, '\n').len() && other != line ==> !contains_text(
                #[trigger] split_on(text, '\n')[other],
                commented_directive(),
            ),
    ensures
        import_site_enabled(text) matches Some(patched) && import_site_enabled(patched) == Some(
            patched,
        ),
{
    let pattern = commented_directive();
    lemma_directive_line(split_on(text, '\n')[line]);
    lemma_patch_changes_one_line(text, line);
    lemma_patch_can_be_repeated(text, line);
    let patched = import_site_enabled(text)->0;
    let changed = split_on(patched, '\n');
    assert forall|i: int| 0 <= i < changed.len() implies !contains_text(
        #[trigger] changed[i],
        pattern,
    ) by {
        if i != line {
            assert(changed[i] == split_on(text, '\n')[i]);
        }
    }
    reveal_strlit("#import site");
    assert(lacks(pattern, '\n'));
    lemma_join_excludes(changed, '\n', pattern);
    lemma_join_split(patched, '\n');
}

/// The name of the configuration file of `version`.
pub fn config_file_name(version: &VersionTriple) -> (out: String)
    ensures
        out@ == config_name(*version),
{
    let mut out = String::from_str("python");
    push_decimal(&mut out, version.major);
    push_decimal(&mut out, version.minor);
    out.append("._pth");
    out
}

/// Whether one of the lines of `text`, white space around it removed, is
/// the active directive.
fn holds_active_line(text: &Vec<char>) -> (b: bool)
    ensures
        b == has_active_line(text@),
{
    let lines = split_chars(text, '\n');
    let active = chars_of("import site");
    let mut i: usize = 0;
    assert(parts_view(lines@).len() == lines.len());
    while i < lines.len()
        invariant
            i <= lines.len(),
            active@ == active_directive(),
            parts_view(lines@) == split_on(text@, '\n'),
            forall|line: int|
                0 <= line < i ==> trimmed(#[trigger] split_on(text@, '\n')[line])
                    != active_directive(),
        decreases lines.len() - i,
    {
        assert(parts_view(lines@)[i as int] == lines[i as int]@);
        let (from, to) = trim_bounds(&lines[i]);
        if to - from == active.len() && matches_at(&lines[i], &active, from) {
            assert(trimmed(split_on(text@, '\n')[i as int]) == active_directive());
            return true;
        }
        i += 1;
    }
    false
}

/// The patched text of the configuration file at `path`.
///
/// `contents` is the text of the file, or `None` where the file could not
/// be read. Fails with `PatchError`, which carries `path`, where there is no
/// text, or the text neither holds the commented directive nor has the
/// directive in force.
pub fn enable_import_site(path: &str, contents: Option<&str>) -> (r: Result<String, ProvisionError>)
    ensures
        match contents {
            Some(text) if import_site_enabled(text@) is Some => r matches Ok(patched) && patched@
                == import_site_enabled(text@)->0,
            _ => r matches Err(e) && e@ == (ProvisionErrorView::PatchError { path: path@ }),
        },
{
    match contents {
        Some(text) => {
            let chars = chars_of(text);
            let commented = chars_of("#import site");
            match find_text(&chars, &commented) {
                Some(at) => {
                    let end: usize = chars.len();
                    let width: usize = commented.len();
                    proof {
                        assert(occurs_at(chars@, commented@, at as int));
                        lemma_first_occurrence(text@, commented_directive(), at as int);
                    }
                    let mut out = String::from_str(text.substring_char(0, at));
                    out.append("import site");
                    out.append(text.substring_char(at + width, end));
                    return Ok(out);
                },
                None => {
                    if holds_active_line(&chars) {
                        return Ok(String::from_str(text));
                    }
                },
            }
        },
        None => {},
    }
    Err(ProvisionError::PatchError { path: String::from_str(path) })
}

/// Judges the writing of the patched text back to the configuration file
/// at `path`: done where `written` says that the file now holds it, else a
/// `PatchError` that carries `path`.
pub fn check_patch_written(path: &str, written: bool) -> (r: Result<(), ProvisionError>)
    ensures
        match r {
            Ok(_) => written,
            Err(e) => !written && e@ == (ProvisionErrorView::PatchError { path: path@ }),
        },
{
    if written {
        Ok(())
    } else {
        Err(ProvisionError::PatchError { path: String::from_str(path) })
    }
}

} // verus!
