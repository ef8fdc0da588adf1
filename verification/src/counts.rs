//! How many times each base name has been handed out, kept in a
//! `rustc_hash::FxHashMap` keyed by the name.

use vstd::prelude::*;
use rustc_hash::{FxBuildHasher, FxHashMap};

verus! {

/// The hasher builder of `FxHashMap`.
#[verifier::external_type_specification]
#[verifier::external_body]
pub struct ExFxBuildHasher(FxBuildHasher);

/// What a table of name counts holds: for each name (by its characters) the
/// number of times it has been handed out.
pub uninterp spec fn name_counts(m: FxHashMap<String, usize>) -> Map<Seq<char>, usize>;

/// Calls `FxHashMap::default`: a new map holds nothing.
#[verifier::external_body]
pub(crate) fn new_name_counts() -> (r: FxHashMap<String, usize>)
    ensures
        name_counts(r).dom() == Set::<Seq<char>>::empty(),
{
    FxHashMap::default()
}

/// Calls `HashMap::get` on an `FxHashMap`: the count stored under the name,
/// if any. Two `String` keys are the same key exactly when they hold the same
/// characters.
#[verifier::external_body]
pub(crate) fn get_name_count(m: &FxHashMap<String, usize>, name: &String) -> (r: Option<usize>)
    ensures
        match r {
            Some(c) => name_counts(*m).contains_key(name@) && c == name_counts(*m)[name@],
            None => !name_counts(*m).contains_key(name@),
        },
{
    m.get(name).copied()
}

/// Calls `HashMap::insert` on an `FxHashMap`: afterwards the name maps to
/// `count`, and every other entry is as it was.
#[verifier::external_body]
pub(crate) fn set_name_count(m: &mut FxHashMap<String, usize>, name: String, count: usize)
    ensures
        name_counts(*final(m)) == name_counts(*old(m)).insert(name@, count),
{
    m.insert(name, count);
}

} // verus!
