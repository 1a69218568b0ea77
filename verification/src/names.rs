//! A set of package names, kept in a hash set with the Fx hasher.

use rustc_hash::FxBuildHasher;
use rustc_hash::FxHashSet;
use vstd::prelude::*;

verus! {

#[verifier::external_type_specification]
#[verifier::external_body]
pub struct ExFxBuildHasher(FxBuildHasher);

/// The names that a set holds.
pub uninterp spec fn held_names(set: FxHashSet<String>) -> Set<Seq<char>>;

/// Calls `FxHashSet::default`.
///
/// Trusted: the new set holds no name.
#[verifier::external_body]
pub(crate) fn empty_names() -> (set: FxHashSet<String>)
    ensures
        held_names(set) == Set::<Seq<char>>::empty(),
{
    FxHashSet::default()
}

/// Calls `HashSet::insert`.
///
/// Trusted: afterwards the set holds what it held before and `name`.
#[verifier::external_body]
pub(crate) fn insert_name(set: &mut FxHashSet<String>, name: String)
    ensures
        held_names(*final(set)) == held_names(*old(set)).insert(name@),
{
    set.insert(name);
}

/// Calls `HashSet::contains`.
///
/// Trusted: the answer says whether the set holds `name`.
#[verifier::external_body]
pub(crate) fn holds_name(set: &FxHashSet<String>, name: &String) -> (found: bool)
    ensures
        found == held_names(*set).contains(name@),
{
    set.contains(name)
}

} // verus!
