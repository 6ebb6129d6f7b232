//! Character sequences: trimming, splitting, searching and decimal numerals.
//!
//! Every string that the crate reads is first turned into its sequence of
//! characters; the functions here work on those sequences and are specified
//! over `Seq<char>`.

use vstd::prelude::*;
use vstd::std_specs::iter::IteratorSpec;
use vstd::string::StringExecFns;

verus! {

// White space and trimming

/// Whether `c` has the Unicode property `White_Space`.
pub open spec fn is_whitespace(c: char) -> bool {
    let u = c as u32;
    ||| 0x09 <= u <= 0x0d
    ||| u == 0x20
    ||| u == 0x85
    ||| u == 0xa0
    ||| u == 0x1680
    ||| 0x2000 <= u <= 0x200a
    ||| u == 0x2028
    ||| u == 0x2029
    ||| u == 0x202f
    ||| u == 0x205f
    ||| u == 0x3000
}

/// `s` without its leading white space.
pub open spec fn trim_start(s: Seq<char>) -> Seq<char>
    decreases s.len(),
{
    if s.len() > 0 && is_whitespace(s[0]) {
        trim_start(s.skip(1))
    } else {
        s
    }
}

/// `s` without its trailing white space.
pub open spec fn trim_end(s: Seq<char>) -> Seq<char>
    decreases s.len(),
{
    if s.len() > 0 && is_whitespace(s.last()) {
        trim_end(s.drop_last())
    } else {
        s
    }
}

/// `s` without its leading and trailing white space.
pub open spec fn trimmed(s: Seq<char>) -> Seq<char> {
    trim_end(trim_start(s))
}

/// Whether `c` is white space.
pub fn char_is_whitespace(c: char) -> (b: bool)
    ensures
        b == is_whitespace(c),
{
    let u: u32 = c as u32;
    (0x09 <= u && u <= 0x0d) || u == 0x20 || u == 0x85 || u == 0xa0 || u == 0x1680 || (0x2000 <= u
        && u <= 0x200a) || u == 0x2028 || u == 0x2029 || u == 0x202f || u == 0x205f || u == 0x3000
}

/// The bounds `(from, to)` of `v` without its leading and trailing white space.
pub fn trim_bounds(v: &Vec<char>) -> (bounds: (usize, usize))
    ensures
        bounds.0 <= bounds.1 <= v.len(),
        v@.subrange(bounds.0 as int, bounds.1 as int) == trimmed(v@),
{
    let n: usize = v.len();
    let mut from: usize = 0;
    while from < n && char_is_whitespace(v[from])
        invariant
            n == v.len(),
            from <= n,
            forall|i: int| 0 <= i < from ==> is_whitespace(#[trigger] v@[i]),
        decreases n - from,
    {
        from += 1;
    }
    let mut to: usize = n;
    while to > from && char_is_whitespace(v[to - 1])
        invariant
            n == v.len(),
            from <= to <= n,
            forall|i: int| to <= i < n ==> is_whitespace(#[trigger] v@[i]),
        decreases to - from,
    {
        to -= 1;
    }
    proof {
        let rest = v@.skip(from as int);
        lemma_trim_start_skip(v@, from as int);
        assert(trim_start(rest) == rest);
        assert(forall|i: int| to - from <= i < rest.len() ==> is_whitespace(#[trigger] rest[i]));
        lemma_trim_end_take(rest, to - from);
        let kept = rest.take(to - from);
        assert(kept == v@.subrange(from as int, to as int));
        assert(trim_end(kept) == kept);
    }
    (from, to)
}

/// Skipping `n` leading white-space characters does not change what
/// `trim_start` gives.
pub proof fn lemma_trim_start_skip(s: Seq<char>, n: int)
    requires
        0 <= n <= s.len(),
        forall|i: int| 0 <= i < n ==> is_whitespace(#[trigger] s[i]),
    ensures
        trim_start(s) == trim_start(s.skip(n)),
    decreases n,
{
    if n > 0 {
        assert(s.skip(1).skip(n - 1) == s.skip(n));
        lemma_trim_start_skip(s.skip(1), n - 1);
    } else {
        assert(s.skip(0) == s);
    }
}

/// Dropping trailing white-space characters down to length `n` does not
/// change what `trim_end` gives.
pub proof fn lemma_trim_end_take(s: Seq<char>, n: int)
    requires
        0 <= n <= s.len(),
        forall|i: int| n <= i < s.len() ==> is_whitespace(#[trigger] s[i]),
    ensures
        trim_end(s) == trim_end(s.take(n)),
    decreases s.len() - n,
{
    if n < s.len() {
        assert(s.drop_last().take(n) == s.take(n));
        lemma_trim_end_take(s.drop_last(), n);
    } else {
        assert(s.take(n) == s);
    }
}

/// Text that neither starts nor ends with white space is its own trimming.
pub proof fn lemma_trimmed_unchanged(s: Seq<char>)
    requires
        s.len() > 0 ==> !is_whitespace(s[0]) && !is_whitespace(s.last()),
    ensures
        trimmed(s) == s,
{
}

/// `trim_start` drops a run of white space at the start and nothing else.
pub proof fn lemma_trim_start_range(s: Seq<char>) -> (from: int)
    ensures
        0 <= from <= s.len(),
        trim_start(s) == s.skip(from),
        forall|i: int| 0 <= i < from ==> is_whitespace(#[trigger] s[i]),
    decreases s.len(),
{
    if s.len() > 0 && is_whitespace(s[0]) {
        let rest = s.skip(1);
        let inner = lemma_trim_start_range(rest);
        assert(rest.skip(inner) == s.skip(inner + 1));
        assert forall|i: int| 0 <= i < inner + 1 implies is_whitespace(#[trigger] s[i]) by {
            if i > 0 {
                assert(s[i] == rest[i - 1]);
            }
        }
        inner + 1
    } else {
        assert(s.skip(0) == s);
        0
    }
}

/// `trim_end` drops a run of white space at the end and nothing else.
pub proof fn lemma_trim_end_range(s: Seq<char>) -> (to: int)
    ensures
        0 <= to <= s.len(),
        trim_end(s) == s.take(to),
        forall|i: int| to <= i < s.len() ==> is_whitespace(#[trigger] s[i]),
    decreases s.len(),
{
    if s.len() > 0 && is_whitespace(s.last()) {
        let rest = s.drop_last();
        let inner = lemma_trim_end_range(rest);
        assert(rest.take(inner) == s.take(inner));
        assert forall|i: int| inner <= i < s.len() implies is_whitespace(#[trigger] s[i]) by {
            if i < s.len() - 1 {
                assert(s[i] == rest[i]);
            }
        }
        inner
    } else {
        assert(s.take(s.len() as int) == s);
        s.len() as int
    }
}

/// What trimming keeps is a range of the text, with nothing but white space
/// in front of it and behind it.
pub proof fn lemma_trimmed_range(s: Seq<char>) -> (bounds: (int, int))
    ensures
        0 <= bounds.0 <= bounds.1 <= s.len(),
        trimmed(s) == s.subrange(bounds.0, bounds.1),
        forall|i: int| 0 <= i < bounds.0 ==> is_whitespace(#[trigger] s[i]),
        forall|i: int| bounds.1 <= i < s.len() ==> is_whitespace(#[trigger] s[i]),
{
    let from = lemma_trim_start_range(s);
    let rest = s.skip(from);
    let kept = lemma_trim_end_range(rest);
    assert(rest.take(kept) == s.subrange(from, from + kept));
    assert forall|i: int| from + kept <= i < s.len() implies is_whitespace(#[trigger] s[i]) by {
        assert(s[i] == rest[i - from]);
    }
    (from, from + kept)
}

/// A text that neither starts nor ends with white space, with white space
/// put in front of it and behind it, is trimmed to itself.
pub proof fn lemma_trimmed_core(lead: Seq<char>, core: Seq<char>, trail: Seq<char>)
    requires
        forall|i: int| 0 <= i < lead.len() ==> is_whitespace(#[trigger] lead[i]),
        forall|i: int| 0 <= i < trail.len() ==> is_whitespace(#[trigger] trail[i]),
        core.len() > 0,
        !is_whitespace(core[0]),
        !is_whitespace(core.last()),
    ensures
        trimmed(lead + core + trail) == core,
{
    let s = lead + core + trail;
    let from = lead.len() as int;
    assert forall|i: int| 0 <= i < from implies is_whitespace(#[trigger] s[i]) by {
        assert(s[i] == lead[i]);
    }
    lemma_trim_start_skip(s, from);
    let rest = s.skip(from);
    assert(rest == core + trail);
    assert(rest[0] == core[0]);
    assert(trim_start(rest) == rest);
    assert forall|i: int| core.len() <= i < rest.len() implies is_whitespace(#[trigger] rest[i]) by {
        assert(rest[i] == trail[i - core.len()]);
    }
    lemma_trim_end_take(rest, core.len() as int);
    assert(rest.take(core.len() as int) == core);
    assert(trim_end(core) == core);
}

// Splitting and joining

/// The parts of `s` between the occurrences of `sep`. Reading from the left,
/// each `sep` closes the current part and opens an empty one; any other
/// character is added to the current part. There is always at least one part.
pub open spec fn split_on(s: Seq<char>, sep: char) -> Seq<Seq<char>>
    decreases s.len(),
{
    if s.len() == 0 {
        seq![Seq::<char>::empty()]
    } else {
        let before = split_on(s.drop_last(), sep);
        if s.last() == sep {
            before.push(Seq::<char>::empty())
        } else {
            before.drop_last().push(before.last().push(s.last()))
        }
    }
}

/// The parts `parts` written one after the other with `sep` between them.
pub open spec fn join_with(parts: Seq<Seq<char>>, sep: char) -> Seq<char>
    decreases parts.len(),
{
    if parts.len() == 0 {
        Seq::<char>::empty()
    } else if parts.len() == 1 {
        parts[0]
    } else {
        join_with(parts.drop_last(), sep).push(sep) + parts.last()
    }
}

/// Whether `c` is no character of `s`.
pub open spec fn lacks(s: Seq<char>, c: char) -> bool {
    forall|j: int| 0 <= j < s.len() ==> s[j] != c
}

/// Whether no part of `parts` holds `sep`.
pub open spec fn free_of(parts: Seq<Seq<char>>, sep: char) -> bool {
    forall|i: int| 0 <= i < parts.len() ==> lacks(#[trigger] parts[i], sep)
}

/// What stands in front of part `at` in what joining `parts` gives.
pub open spec fn text_before(parts: Seq<Seq<char>>, at: int, sep: char) -> Seq<char> {
    if at == 0 {
        Seq::<char>::empty()
    } else {
        join_with(parts.take(at), sep).push(sep)
    }
}

/// What stands behind part `at` in what joining `parts` gives.
pub open spec fn text_after(parts: Seq<Seq<char>>, at: int, sep: char) -> Seq<char> {
    if at + 1 == parts.len() {
        Seq::<char>::empty()
    } else {
        seq![sep] + join_with(parts.skip(at + 1), sep)
    }
}

/// The views of the vectors in `parts`.
pub open spec fn parts_view(parts: Seq<Vec<char>>) -> Seq<Seq<char>> {
    Seq::new(parts.len(), |i: int| parts[i]@)
}

/// The views of the strings in `strings`.
pub open spec fn strings_view(strings: Seq<String>) -> Seq<Seq<char>> {
    Seq::new(strings.len(), |i: int| strings[i]@)
}

/// The characters of `s`, in order.
pub fn chars_of(s: &str) -> (out: Vec<char>)
    ensures
        out@ == s@,
{
    broadcast use vstd::string::group_string_axioms;

    let mut out: Vec<char> = Vec::new();
    let mut it = s.chars();
    loop
        invariant
            it.obeys_prophetic_iter_laws(),
            it.decrease() is Some,
            out@ + it.remaining() == s@,
        ensures
            out@ == s@,
        decreases it.decrease()->0,
    {
        match it.next() {
            Some(c) => {
                out.push(c);
            },
            None => {
                break ;
            },
        }
    }
    out
}

/// A copy of `v[from..to]`.
pub(crate) fn copy_range(v: &Vec<char>, from: usize, to: usize) -> (out: Vec<char>)
    requires
        from <= to <= v.len(),
    ensures
        out@ == v@.subrange(from as int, to as int),
{
    let mut out: Vec<char> = Vec::new();
    let mut i: usize = from;
    while i < to
        invariant
            from <= i <= to <= v.len(),
            out@ == v@.subrange(from as int, i as int),
        decreases to - i,
    {
        out.push(v[i]);
        i += 1;
    }
    out
}

/// The parts of `v` between the occurrences of `sep`.
pub fn split_chars(v: &Vec<char>, sep: char) -> (parts: Vec<Vec<char>>)
    ensures
        parts_view(parts@) == split_on(v@, sep),
{
    let mut parts: Vec<Vec<char>> = Vec::new();
    let mut current: Vec<char> = Vec::new();
    let mut i: usize = 0;
    assert(v@.take(0) == Seq::<char>::empty());
    assert(parts_view(parts@).push(current@) == seq![Seq::<char>::empty()]);
    while i < v.len()
        invariant
            i <= v.len(),
            parts_view(parts@).push(current@) == split_on(v@.take(i as int), sep),
        decreases v.len() - i,
    {
        let c: char = v[i];
        proof {
            let next = v@.take(i + 1);
            assert(next.drop_last() == v@.take(i as int));
            assert(next.last() == c);
        }
        let ghost before = parts_view(parts@).push(current@);
        if c == sep {
            parts.push(current);
            current = Vec::new();
            assert(parts_view(parts@) == before);
        } else {
            current.push(c);
            assert(parts_view(parts@).push(current@) == before.drop_last().push(
                before.last().push(c),
            ));
        }
        i += 1;
    }
    assert(v@.take(i as int) == v@);
    let ghost before = parts_view(parts@).push(current@);
    parts.push(current);
    assert(parts_view(parts@) == before);
    parts
}

/// Splitting always gives at least one part.
pub proof fn lemma_split_nonempty(s: Seq<char>, sep: char)
    ensures
        split_on(s, sep).len() >= 1,
    decreases s.len(),
{
    if s.len() > 0 {
        lemma_split_nonempty(s.drop_last(), sep);
    }
}

/// Text without a separator, added at the end, extends the last part.
pub proof fn lemma_split_extend(x: Seq<char>, y: Seq<char>, sep: char)
    requires
        forall|i: int| 0 <= i < y.len() ==> y[i] != sep,
    ensures
        split_on(x, sep).len() >= 1,
        split_on(x + y, sep) == split_on(x, sep).drop_last().push(split_on(x, sep).last() + y),
    decreases y.len(),
{
    let parts = split_on(x, sep);
    lemma_split_nonempty(x, sep);
    if y.len() == 0 {
        assert(x + y == x);
        assert(parts.last() + y == parts.last());
        assert(parts.drop_last().push(parts.last()) == parts);
    } else {
        let shorter = y.drop_last();
        assert((x + y).drop_last() == x + shorter);
        assert((x + y).last() == y.last());
        lemma_split_extend(x, shorter, sep);
        let before = split_on(x + shorter, sep);
        assert(before.drop_last() == parts.drop_last());
        assert(before.last().push(y.last()) == parts.last() + y);
    }
}

/// Text without a separator is a single part.
pub proof fn lemma_split_single(s: Seq<char>, sep: char)
    requires
        forall|i: int| 0 <= i < s.len() ==> s[i] != sep,
    ensures
        split_on(s, sep) == seq![s],
{
    let nothing = Seq::<char>::empty();
    lemma_split_extend(nothing, s, sep);
    assert(nothing + s == s);
    assert(split_on(nothing, sep) == seq![nothing]);
    assert(seq![nothing].drop_last().push(nothing + s) == seq![s]);
}

/// A separator at the end opens an empty part.
pub proof fn lemma_split_separator(x: Seq<char>, sep: char)
    ensures
        split_on(x.push(sep), sep) == split_on(x, sep).push(Seq::<char>::empty()),
{
    assert(x.push(sep).drop_last() == x);
}

/// The parts that splitting gives hold no separator.
pub proof fn lemma_split_parts_free(s: Seq<char>, sep: char)
    ensures
        free_of(split_on(s, sep), sep),
    decreases s.len(),
{
    if s.len() > 0 {
        let init = s.drop_last();
        let before = split_on(init, sep);
        lemma_split_nonempty(init, sep);
        lemma_split_parts_free(init, sep);
        let parts = split_on(s, sep);
        assert forall|i: int| 0 <= i < parts.len() implies lacks(#[trigger] parts[i], sep) by {
            if i < before.len() - 1 {
                assert(parts[i] == before[i]);
            } else if s.last() != sep {
                assert(lacks(before[before.len() - 1], sep));
                assert(parts[i] == before.last().push(s.last()));
            } else if i < before.len() {
                assert(parts[i] == before[i]);
            }
        }
    }
}

/// Joining what splitting gave restores the text.
pub proof fn lemma_join_split(s: Seq<char>, sep: char)
    ensures
        join_with(split_on(s, sep), sep) == s,
    decreases s.len(),
{
    if s.len() > 0 {
        let init = s.drop_last();
        let before = split_on(init, sep);
        lemma_split_nonempty(init, sep);
        lemma_join_split(init, sep);
        if s.last() == sep {
            let parts = before.push(Seq::<char>::empty());
            assert(parts.drop_last() == before);
            assert(join_with(parts, sep) == join_with(before, sep).push(sep) + parts.last());
            assert(init.push(sep) + Seq::<char>::empty() == s);
        } else {
            let grown = before.last().push(s.last());
            let parts = before.drop_last().push(grown);
            if before.len() == 1 {
                assert(join_with(before, sep) == before[0]);
                assert(parts[0] == grown);
                assert(init.push(s.last()) == s);
            } else {
                assert(parts.drop_last() == before.drop_last());
                assert(parts.last() == grown);
                let head = join_with(before.drop_last(), sep).push(sep);
                assert(join_with(before, sep) == head + before.last());
                assert(join_with(parts, sep) == head + grown);
                assert(head + grown == (head + before.last()).push(s.last()));
                assert(init.push(s.last()) == s);
            }
        }
    } else {
        assert(split_on(s, sep) == seq![Seq::<char>::empty()]);
    }
}

/// Splitting what joining gave restores the parts, where no part holds the
/// separator.
pub proof fn lemma_split_join(parts: Seq<Seq<char>>, sep: char)
    requires
        parts.len() > 0,
        free_of(parts, sep),
    ensures
        split_on(join_with(parts, sep), sep) == parts,
    decreases parts.len(),
{
    let last = parts.last();
    assert(lacks(parts[parts.len() - 1], sep));
    if parts.len() == 1 {
        lemma_split_single(parts[0], sep);
        assert(seq![parts[0]] == parts);
    } else {
        let init = parts.drop_last();
        assert forall|i: int| 0 <= i < init.len() implies lacks(#[trigger] init[i], sep) by {
            assert(init[i] == parts[i]);
        }
        lemma_split_join(init, sep);
        let head = join_with(init, sep);
        lemma_split_separator(head, sep);
        lemma_split_extend(head.push(sep), last, sep);
        let opened = init.push(Seq::<char>::empty());
        assert(opened.drop_last() == init);
        assert(opened.last() + last == last);
        assert(init.push(last) == parts);
    }
}

/// Joining two runs of parts is joining each and putting a separator between.
pub proof fn lemma_join_concat(x: Seq<Seq<char>>, y: Seq<Seq<char>>, sep: char)
    requires
        x.len() > 0,
        y.len() > 0,
    ensures
        join_with(x + y, sep) == join_with(x, sep).push(sep) + join_with(y, sep),
    decreases y.len(),
{
    let all = x + y;
    assert(all.drop_last() == x + y.drop_last());
    assert(all.last() == y.last());
    if y.len() == 1 {
        assert(x + y.drop_last() == x);
        assert(join_with(y, sep) == y.last());
    } else {
        lemma_join_concat(x, y.drop_last(), sep);
        let head = join_with(x, sep).push(sep);
        let middle = join_with(y.drop_last(), sep);
        assert((head + middle).push(sep) + y.last() == head + (middle.push(sep) + y.last()));
    }
}

/// What joining gives is what stands in front of a part, the part, and what
/// stands behind it.
pub proof fn lemma_join_around(parts: Seq<Seq<char>>, at: int, sep: char)
    requires
        0 <= at < parts.len(),
    ensures
        join_with(parts, sep) == text_before(parts, at, sep) + parts[at] + text_after(
            parts,
            at,
            sep,
        ),
{
    let front = parts.take(at);
    let one = seq![parts[at]];
    let back = parts.skip(at + 1);
    let empty = Seq::<char>::empty();
    assert(join_with(one, sep) == parts[at]);
    if at == 0 {
        if at + 1 == parts.len() {
            assert(parts == one);
            assert(empty + parts[at] + empty == parts[at]);
        } else {
            assert(parts == one + back);
            lemma_join_concat(one, back, sep);
            assert(parts[at].push(sep) + join_with(back, sep) == empty + parts[at] + (seq![sep]
                + join_with(back, sep)));
        }
    } else {
        let head = join_with(front, sep).push(sep);
        if at + 1 == parts.len() {
            assert(parts == front + one);
            lemma_join_concat(front, one, sep);
            assert(head + parts[at] == head + parts[at] + empty);
        } else {
            assert(parts == front + (one + back));
            lemma_join_concat(one, back, sep);
            lemma_join_concat(front, one + back, sep);
            assert(head + (parts[at].push(sep) + join_with(back, sep)) == head + parts[at] + (
            seq![sep] + join_with(back, sep)));
        }
    }
}

// Searching

/// Whether `pattern` stands in `text` at index `at`.
pub open spec fn occurs_at(text: Seq<char>, pattern: Seq<char>, at: int) -> bool {
    &&& 0 <= at
    &&& at + pattern.len() <= text.len()
    &&& text.subrange(at, at + pattern.len()) == pattern
}

/// Whether `pattern` stands somewhere in `text`.
pub open spec fn contains_text(text: Seq<char>, pattern: Seq<char>) -> bool {
    exists|at: int| occurs_at(text, pattern, at)
}

/// Whether `at` is the leftmost index at which `pattern` stands in `text`.
pub open spec fn is_first_occurrence(text: Seq<char>, pattern: Seq<char>, at: int) -> bool {
    &&& occurs_at(text, pattern, at)
    &&& forall|earlier: int| 0 <= earlier < at ==> !occurs_at(text, pattern, earlier)
}

/// The leftmost index at which `pattern` stands in `text`; meaningful only
/// where `contains_text(text, pattern)`.
pub open spec fn first_occurrence(text: Seq<char>, pattern: Seq<char>) -> int {
    choose|at: int| is_first_occurrence(text, pattern, at)
}

/// `text` with the leftmost occurrence of `pattern` replaced by `with`;
/// `text` itself where `pattern` does not occur.
pub open spec fn replace_first(text: Seq<char>, pattern: Seq<char>, with: Seq<char>) -> Seq<char> {
    if contains_text(text, pattern) {
        let at = first_occurrence(text, pattern);
        text.subrange(0, at) + with + text.subrange(at + pattern.len(), text.len() as int)
    } else {
        text
    }
}

/// Whether `pattern` stands in `text` at index `at`.
pub fn matches_at(text: &Vec<char>, pattern: &Vec<char>, at: usize) -> (b: bool)
    ensures
        b == occurs_at(text@, pattern@, at as int),
{
    let n: usize = text.len();
    let m: usize = pattern.len();
    if m > n || at > n - m {
        return false;
    }
    let mut k: usize = 0;
    while k < m
        invariant
            n == text.len(),
            m == pattern.len(),
            at + m <= n,
            k <= m,
            forall|j: int| 0 <= j < k ==> text@[at + j] == pattern@[j],
        decreases m - k,
    {
        if text[at + k] != pattern[k] {
            assert(text@.subrange(at as int, at + m)[k as int] != pattern@[k as int]);
            return false;
        }
        k += 1;
    }
    assert(text@.subrange(at as int, at + m) =~= pattern@);
    true
}

/// The leftmost index at which `pattern` stands in `text`, if it does.
pub fn find_text(text: &Vec<char>, pattern: &Vec<char>) -> (found: Option<usize>)
    ensures
        match found {
            Some(at) => is_first_occurrence(text@, pattern@, at as int),
            None => !contains_text(text@, pattern@),
        },
{
    let n: usize = text.len();
    let m: usize = pattern.len();
    if m > n {
        return None;
    }
    let mut at: usize = 0;
    loop
        invariant
            n == text.len(),
            m == pattern.len(),
            at <= n - m,
            forall|earlier: int| 0 <= earlier < at ==> !occurs_at(text@, pattern@, earlier),
        decreases n - m - at,
    {
        if matches_at(text, pattern, at) {
            return Some(at);
        }
        if at == n - m {
            return None;
        }
        at += 1;
    }
}

/// The leftmost occurrence of a pattern is the one that `first_occurrence`
/// names.
pub proof fn lemma_first_occurrence(text: Seq<char>, pattern: Seq<char>, at: int)
    requires
        is_first_occurrence(text, pattern, at),
    ensures
        contains_text(text, pattern),
        first_occurrence(text, pattern) == at,
{
    let chosen = first_occurrence(text, pattern);
    assert(is_first_occurrence(text, pattern, chosen));
    if chosen < at {
        assert(!occurs_at(text, pattern, chosen));
    }
    if at < chosen {
        assert(!occurs_at(text, pattern, at));
    }
}

/// A pattern that stands in a text has a leftmost occurrence there.
pub proof fn lemma_leftmost_exists(text: Seq<char>, pattern: Seq<char>, at: int)
    requires
        occurs_at(text, pattern, at),
    ensures
        is_first_occurrence(text, pattern, first_occurrence(text, pattern)),
        first_occurrence(text, pattern) <= at,
    decreases at,
{
    if exists|earlier: int| 0 <= earlier < at && occurs_at(text, pattern, earlier) {
        let earlier = choose|earlier: int| 0 <= earlier < at && occurs_at(text, pattern, earlier);
        lemma_leftmost_exists(text, pattern, earlier);
    } else {
        assert(is_first_occurrence(text, pattern, at));
        lemma_first_occurrence(text, pattern, at);
    }
}

/// A pattern without the separator that stands in none of the parts stands
/// nowhere in what joining them gives.
pub proof fn lemma_join_excludes(parts: Seq<Seq<char>>, sep: char, pattern: Seq<char>)
    requires
        pattern.len() > 0,
        lacks(pattern, sep),
        forall|i: int| 0 <= i < parts.len() ==> !contains_text(#[trigger] parts[i], pattern),
    ensures
        !contains_text(join_with(parts, sep), pattern),
    decreases parts.len(),
{
    let text = join_with(parts, sep);
    if parts.len() == 1 {
        assert(!contains_text(parts[0], pattern));
    } else if parts.len() > 1 {
        let init = parts.drop_last();
        let head = join_with(init, sep);
        let last = parts.last();
        assert forall|i: int| 0 <= i < init.len() implies !contains_text(
            #[trigger] init[i],
            pattern,
        ) by {
            assert(init[i] == parts[i]);
        }
        lemma_join_excludes(init, sep, pattern);
        assert(!contains_text(parts[parts.len() - 1], pattern));
        assert forall|at: int| !occurs_at(text, pattern, at) by {
            if occurs_at(text, pattern, at) {
                let found = text.subrange(at, at + pattern.len());
                let cut = head.len() as int;
                if at + pattern.len() <= cut {
                    assert(head.subrange(at, at + pattern.len()) == found);
                    assert(occurs_at(head, pattern, at));
                } else if at <= cut {
                    assert(found[cut - at] == text[cut]);
                    assert(pattern[cut - at] == sep);
                } else {
                    assert(last.subrange(at - cut - 1, at - cut - 1 + pattern.len()) == found);
                    assert(occurs_at(last, pattern, at - cut - 1));
                }
            }
        }
    }
}

// Decimal numerals

/// Whether `c` is one of the ten ASCII digits.
pub open spec fn is_digit(c: char) -> bool {
    '0' <= c <= '9'
}

/// The value of the ASCII digit `c`.
pub open spec fn digit_value(c: char) -> nat {
    (c as u32 - '0' as u32) as nat
}

/// The ASCII digit that stands for `d`, for `d` below ten.
pub open spec fn digit_char(d: nat) -> char {
    (d + '0' as u32) as char
}

/// Whether every character of `s` is an ASCII digit.
pub open spec fn all_digits(s: Seq<char>) -> bool {
    forall|i: int| 0 <= i < s.len() ==> is_digit(#[trigger] s[i])
}

/// The number that the digit string `s` denotes in base ten; 0 for the empty string.
pub open spec fn digits_value(s: Seq<char>) -> nat
    decreases s.len(),
{
    if s.len() == 0 {
        0
    } else {
        digits_value(s.drop_last()) * 10 + digit_value(s.last())
    }
}

/// The shortest decimal numeral for `n`: no sign, no leading zero, `"0"` for zero.
pub open spec fn decimal(n: nat) -> Seq<char>
    decreases n,
{
    if n < 10 {
        seq![digit_char(n)]
    } else {
        decimal(n / 10).push(digit_char(n % 10))
    }
}

/// Whether `s` is the shortest decimal numeral of some number.
pub open spec fn is_canonical_numeral(s: Seq<char>) -> bool {
    &&& s.len() > 0
    &&& all_digits(s)
    &&& (s.len() == 1 || s[0] != '0')
}

/// What parsing `s` as an unsigned 64-bit number gives: an optional `+`,
/// then one or more ASCII digits whose value is at most `u64::MAX`. Leading
/// zeros are accepted; a `-`, an empty string or any other character is not.
pub open spec fn parse_u64(s: Seq<char>) -> Option<u64> {
    let digits = if s.len() > 0 && s[0] == '+' {
        s.skip(1)
    } else {
        s
    };
    if digits.len() > 0 && all_digits(digits) && digits_value(digits) <= u64::MAX {
        Some(digits_value(digits) as u64)
    } else {
        None
    }
}

/// `v` read as an unsigned 64-bit number.
pub fn parse_number(v: &Vec<char>) -> (parsed: Option<u64>)
    ensures
        parsed == parse_u64(v@),
{
    let n: usize = v.len();
    let start: usize = if n > 0 && v[0] == '+' {
        1
    } else {
        0
    };
    if start == n {
        return None;
    }
    let ghost digits = v@.skip(start as int);
    assert(start == 0 ==> digits == v@);
    let ghost expected = if all_digits(digits) && digits_value(digits) <= u64::MAX {
        Some(digits_value(digits) as u64)
    } else {
        None
    };
    assert(parse_u64(v@) == expected);
    let mut value: u128 = 0;
    let mut i: usize = start;
    assert(digits.take(0) == Seq::<char>::empty());
    while i < n
        invariant
            n == v.len(),
            start <= i <= n,
            digits == v@.skip(start as int),
            parse_u64(v@) == expected,
            expected == if all_digits(digits) && digits_value(digits) <= u64::MAX {
                Some(digits_value(digits) as u64)
            } else {
                None
            },
            all_digits(digits.take(i - start)),
            value == digits_value(digits.take(i - start)),
            value <= u64::MAX,
        decreases n - i,
    {
        let c: char = v[i];
        let ghost seen = digits.take(i - start + 1);
        assert(seen.drop_last() == digits.take(i - start));
        assert(seen.last() == c);
        if !('0' <= c && c <= '9') {
            assert(!is_digit(digits[i - start]));
            return None;
        }
        let d: u128 = (c as u32 - '0' as u32) as u128;
        let next: u128 = value * 10 + d;
        if next > 0xffff_ffff_ffff_ffff {
            proof {
                lemma_digits_value_prefix(digits, i - start + 1);
            }
            return None;
        }
        assert forall|j: int| 0 <= j < seen.len() implies is_digit(#[trigger] seen[j]) by {
            if j < seen.len() - 1 {
                assert(seen[j] == digits.take(i - start)[j]);
            }
        }
        value = next;
        i += 1;
    }
    assert(digits.take(n - start) == digits);
    Some(value as u64)
}

/// The one-character string that holds the digit `d`.
fn digit_str(d: u8) -> (s: &'static str)
    requires
        d < 10,
    ensures
        s@ == seq![digit_char(d as nat)],
{
    proof {
        reveal_strlit("0");
        reveal_strlit("1");
        reveal_strlit("2");
        reveal_strlit("3");
        reveal_strlit("4");
        reveal_strlit("5");
        reveal_strlit("6");
        reveal_strlit("7");
        reveal_strlit("8");
        reveal_strlit("9");
    }
    let s: &'static str = match d {
        0 => "0",
        1 => "1",
        2 => "2",
        3 => "3",
        4 => "4",
        5 => "5",
        6 => "6",
        7 => "7",
        8 => "8",
        _ => "9",
    };
    assert(s@ =~= seq![digit_char(d as nat)]);
    s
}

/// Appends the shortest decimal numeral of `n` to `out`.
pub fn push_decimal(out: &mut String, n: u64)
    ensures
        final(out)@ == old(out)@ + decimal(n as nat),
    decreases n,
{
    if n >= 10 {
        push_decimal(out, n / 10);
    }
    let d: u8 = (n % 10) as u8;
    out.append(digit_str(d));
    assert(out@ =~= old(out)@ + decimal(n as nat));
}

/// A digit string denotes at least what any of its prefixes denotes.
pub proof fn lemma_digits_value_prefix(s: Seq<char>, n: int)
    requires
        0 <= n <= s.len(),
    ensures
        digits_value(s.take(n)) <= digits_value(s),
    decreases s.len() - n,
{
    if n < s.len() {
        assert(s.drop_last().take(n) == s.take(n));
        lemma_digits_value_prefix(s.drop_last(), n);
    } else {
        assert(s.take(n) == s);
    }
}

/// The decimal numeral of `n` is canonical and denotes `n`.
pub proof fn lemma_decimal_denotes(n: nat)
    ensures
        is_canonical_numeral(decimal(n)),
        digits_value(decimal(n)) == n,
        n > 0 ==> decimal(n)[0] != '0',
    decreases n,
{
    if n < 10 {
        let s = decimal(n);
        assert(s.drop_last() == Seq::<char>::empty());
        assert(digits_value(s.drop_last()) == 0);
    } else {
        lemma_decimal_denotes(n / 10);
        let init = decimal(n / 10);
        let s = decimal(n);
        assert(s.drop_last() == init);
        assert(s[0] == init[0]);
        assert forall|i: int| 0 <= i < s.len() implies is_digit(#[trigger] s[i]) by {
            if i < init.len() {
                assert(s[i] == init[i]);
            }
        }
    }
}

/// A digit string that does not start with `0` denotes a number above zero.
pub proof fn lemma_leading_digit(s: Seq<char>)
    requires
        s.len() > 0,
        all_digits(s),
        s[0] != '0',
    ensures
        digits_value(s) >= 1,
{
    lemma_digits_value_prefix(s, 1);
    let head = s.take(1);
    assert(head.drop_last() == Seq::<char>::empty());
    assert(digits_value(head.drop_last()) == 0);
    assert(head.last() == s[0]);
    assert(is_digit(s[0]));
}

/// A canonical numeral is the decimal numeral of the number it denotes.
pub proof fn lemma_canonical_is_decimal(s: Seq<char>)
    requires
        is_canonical_numeral(s),
    ensures
        decimal(digits_value(s)) == s,
    decreases s.len(),
{
    let init = s.drop_last();
    assert(is_digit(s.last()));
    if s.len() == 1 {
        assert(init == Seq::<char>::empty());
        assert(digits_value(init) == 0);
        assert(decimal(digits_value(s)) == seq![s[0]]);
    } else {
        assert forall|i: int| 0 <= i < init.len() implies is_digit(#[trigger] init[i]) by {
            assert(init[i] == s[i]);
        }
        assert(init[0] == s[0]);
        lemma_leading_digit(init);
        lemma_canonical_is_decimal(init);
        let n = digits_value(s);
        assert(n == digits_value(init) * 10 + digit_value(s.last()));
        assert(n / 10 == digits_value(init));
        assert(n % 10 == digit_value(s.last()));
        assert(digit_char(n % 10) == s.last());
        assert(init.push(s.last()) == s);
    }
}

/// No character of a string of digits is `c`, for a `c` that is not a digit.
pub proof fn lemma_digits_exclude(s: Seq<char>, c: char)
    requires
        all_digits(s),
        !is_digit(c),
    ensures
        forall|i: int| 0 <= i < s.len() ==> s[i] != c,
{
    assert forall|i: int| 0 <= i < s.len() implies s[i] != c by {
        assert(is_digit(s[i]));
    }
}

} // verus!
