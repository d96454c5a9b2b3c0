//! Classifies the captures of a query: a capture whose name begins with an
//! underscore is bound for use inside the query only and never surfaces.
use std::collections::HashSet;
use vstd::prelude::*;

verus! {

broadcast use vstd::std_specs::hash::group_hash_axioms;

/// A capture name is ignored when its first character is `_`.
pub open spec fn is_ignored_name(name: Seq<char>) -> bool {
    name.len() > 0 && name[0] == '_'
}

/// The indices of `names` whose name is ignored.
pub open spec fn ignored_indices(names: Seq<String>) -> Set<usize> {
    Set::new(|i: usize| i < names.len() && is_ignored_name(names[i as int]@))
}

/// Whether `name` begins with the underscore character.
pub fn starts_with_underscore(name: &String) -> (r: bool)
    ensures
        r == is_ignored_name(name@),
{
    let mut chars = name.as_str().chars();
    match chars.next() {
        Some(c) => c == '_',
        None => false,
    }
}

/// The set of capture indices whose name begins with an underscore.
pub fn classify(names: &Vec<String>) -> (r: HashSet<usize>)
    ensures
        r@ == ignored_indices(names@),
{
    let mut ignores: HashSet<usize> = HashSet::new();
    let mut i: usize = 0;
    while i < names.len()
        invariant
            i <= names.len(),
            ignores@ == Set::new(
                |j: usize| j < i && is_ignored_name(names@[j as int]@),
            ),
        decreases names.len() - i,
    {
        if starts_with_underscore(&names[i]) {
            ignores.insert(i);
        }
        assert(ignores@ == Set::new(
            |j: usize| j < i + 1 && is_ignored_name(names@[j as int]@),
        ));
        i = i + 1;
    }
    assert(ignores@ == ignored_indices(names@));
    ignores
}

} // verus!
