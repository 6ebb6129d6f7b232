//! Which entries of the host library directory are copied into the target
//! directory.
//!
//! Only the top level of the host directory is looked at. An entry whose
//! name is already taken in the target directory is left out, whatever it
//! holds: what the archive brought always wins over what the host has.

use vstd::prelude::*;
use vstd::string::StringExecFns;
use crate::error::{ProvisionError, ProvisionErrorView};
use crate::text::strings_view;

verus! {

/// How the chosen entries are copied.
#[derive(Clone, Copy, Debug, PartialEq, Eq, Structural)]
pub struct MergePolicy {
    /// Whether a file that exists at the destination is written over.
    pub overwrite: bool,
    /// Whether a file that exists at the destination is passed over in
    /// silence instead of being reported as an error.
    pub skip_existing: bool,
}

/// The policy of the library merge: never write over, and pass over in
/// silence what exists.
pub open spec fn merge_policy_value() -> MergePolicy {
    MergePolicy { overwrite: false, skip_existing: true }
}

/// The names of `source`, in their order, that `existing` does not hold.
pub open spec fn absent_from(source: Seq<Seq<char>>, existing: Seq<Seq<char>>) -> Seq<Seq<char>>
    decreases source.len(),
{
    if source.len() == 0 {
        Seq::<Seq<char>>::empty()
    } else {
        let before = absent_from(source.drop_last(), existing);
        if existing.contains(source.last()) {
            before
        } else {
            before.push(source.last())
        }
    }
}

/// A name is chosen exactly when the host directory has it and the target
/// directory does not.
pub proof fn lemma_selection_members(
    source: Seq<Seq<char>>,
    existing: Seq<Seq<char>>,
    name: Seq<char>,
)
    ensures
        absent_from(source, existing).contains(name) <==> source.contains(name)
            && !existing.contains(name),
    decreases source.len(),
{
    if source.len() > 0 {
        let init = source.drop_last();
        let before = absent_from(init, existing);
        lemma_selection_members(init, existing, name);
        assert(source.contains(name) <==> init.contains(name) || source.last() == name) by {
            if source.contains(name) {
                let i = choose|i: int| 0 <= i < source.len() && source[i] == name;
                if i < init.len() {
                    assert(init[i] == name);
                }
            }
            if init.contains(name) {
                let i = choose|i: int| 0 <= i < init.len() && init[i] == name;
                assert(source[i] == name);
            }
            if source.last() == name {
                assert(source[source.len() - 1] == name);
            }
        }
        if !existing.contains(source.last()) {
            let chosen = before.push(source.last());
            assert(chosen.contains(name) <==> before.contains(name) || source.last() == name) by {
                if chosen.contains(name) {
                    let i = choose|i: int| 0 <= i < chosen.len() && chosen[i] == name;
                    if i < before.len() {
                        assert(before[i] == name);
                    }
                }
                if before.contains(name) {
                    let i = choose|i: int| 0 <= i < before.len() && before[i] == name;
                    assert(chosen[i] == name);
                }
                if source.last() == name {
                    assert(chosen[chosen.len() - 1] == name);
                }
            }
        }
    }
}

/// Nothing that the target directory already holds is chosen, so the merge
/// writes over none of its entries.
pub proof fn lemma_merge_spares_existing(
    source: Seq<Seq<char>>,
    existing: Seq<Seq<char>>,
    name: Seq<char>,
)
    requires
        existing.contains(name),
    ensures
        !absent_from(source, existing).contains(name),
{
    lemma_selection_members(source, existing, name);
}

/// The policy of the library merge.
pub fn merge_policy() -> (policy: MergePolicy)
    ensures
        policy == merge_policy_value(),
{
    MergePolicy { overwrite: false, skip_existing: true }
}

/// Whether `names` holds `name`.
fn holds_name(names: &Vec<String>, name: &String) -> (b: bool)
    ensures
        b == strings_view(names@).contains(name@),
{
    let mut i: usize = 0;
    while i < names.len()
        invariant
            i <= names.len(),
            forall|j: int| 0 <= j < i ==> strings_view(names@)[j] != name@,
        decreases names.len() - i,
    {
        if names[i] == *name {
            assert(strings_view(names@)[i as int] == name@);
            return true;
        }
        i += 1;
    }
    false
}

/// The entries of the host library directory to copy: the names in
/// `source`, in their order, that are not among `existing`, the names
/// already present at the top level of the target directory.
pub fn merge_selection(source: &Vec<String>, existing: &Vec<String>) -> (selected: Vec<String>)
    ensures
        strings_view(selected@) == absent_from(strings_view(source@), strings_view(existing@)),
{
    let mut selected: Vec<String> = Vec::new();
    let mut i: usize = 0;
    assert(strings_view(source@).take(0) == Seq::<Seq<char>>::empty());
    while i < source.len()
        invariant
            i <= source.len(),
            strings_view(selected@) == absent_from(
                strings_view(source@).take(i as int),
                strings_view(existing@),
            ),
        decreases source.len() - i,
    {
        let ghost seen = strings_view(source@).take(i + 1);
        assert(seen.drop_last() == strings_view(source@).take(i as int));
        assert(seen.last() == source[i as int]@);
        if !holds_name(existing, &source[i]) {
            let ghost before = strings_view(selected@);
            selected.push(source[i].clone());
            assert(strings_view(selected@) == before.push(source[i as int]@));
        }
        i += 1;
    }
    assert(strings_view(source@).take(i as int) == strings_view(source@));
    selected
}

/// Judges the copying of the chosen entries into the target directory
/// `path`: done where `copied` says that every one of them was copied, else
/// a `CopyError` that carries `path`. Nothing is rolled back.
pub fn check_copy(path: &str, copied: bool) -> (r: Result<(), ProvisionError>)
    ensures
        match r {
            Ok(_) => copied,
            Err(e) => !copied && e@ == (ProvisionErrorView::CopyError { path: path@ }),
        },
{
    if copied {
        Ok(())
    } else {
        Err(ProvisionError::CopyError { path: String::from_str(path) })
    }
}

} // verus!
