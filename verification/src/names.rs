//! Lists of unique names and lookups in them.
//!
//! Render-graph nodes and shader sources are both registered under textual
//! names; the position of a name in its list is the index its owner is known
//! by.

use vstd::prelude::*;

verus! {

/// The character sequences held by a list of strings.
pub open spec fn name_seq(names: Seq<String>) -> Seq<Seq<char>> {
    Seq::new(names.len(), |i: int| names[i]@)
}

/// `name` occurs in `names`.
pub open spec fn has_name(names: Seq<Seq<char>>, name: Seq<char>) -> bool {
    exists|i: int| 0 <= i < names.len() && names[i] == name
}

/// A position of `name` in `names`; meaningful when `has_name(names, name)`.
pub open spec fn position_of(names: Seq<Seq<char>>, name: Seq<char>) -> int {
    choose|i: int| 0 <= i < names.len() && names[i] == name
}

/// No name occurs twice.
pub open spec fn distinct(names: Seq<Seq<char>>) -> bool {
    forall|i: int, j: int| 0 <= i < j < names.len() ==> names[i] != names[j]
}

/// In a list of unique names, a name found at `i` has position `i`.
pub proof fn lemma_position_unique(names: Seq<Seq<char>>, name: Seq<char>, i: int)
    requires
        distinct(names),
        0 <= i < names.len(),
        names[i] == name,
    ensures
        has_name(names, name),
        position_of(names, name) == i,
{
    let j = position_of(names, name);
    assert(0 <= j < names.len() && names[j] == name);
    if j < i {
        assert(names[j] != names[i]);
    } else if i < j {
        assert(names[i] != names[j]);
    }
}

/// Appending a name that is not yet listed keeps the names unique.
pub proof fn lemma_push_keeps_distinct(names: Seq<Seq<char>>, name: Seq<char>)
    requires
        distinct(names),
        !has_name(names, name),
    ensures
        distinct(names.push(name)),
{
    let after = names.push(name);
    assert forall|i: int, j: int| 0 <= i < j < after.len() implies after[i] != after[j] by {
        if j == names.len() && after[i] == after[j] {
            assert(names[i] == name);
        }
    }
}

/// Appending a string appends its characters to the names.
pub proof fn lemma_name_seq_push(names: Seq<String>, name: String)
    ensures
        name_seq(names.push(name)) == name_seq(names).push(name@),
{
    assert(name_seq(names.push(name)) =~= name_seq(names).push(name@));
}

/// Position of `key` in `names`, when it is listed.
pub(crate) fn find_name(names: &Vec<String>, key: &String) -> (r: Option<usize>)
    requires
        distinct(name_seq(names@)),
    ensures
        r == if has_name(name_seq(names@), key@) {
            Some(position_of(name_seq(names@), key@) as usize)
        } else {
            None
        },
        r matches Some(i) ==> i < names.len() && names[i as int]@ == key@,
{
    let mut i: usize = 0;
    while i < names.len()
        invariant
            i <= names.len(),
            distinct(name_seq(names@)),
            forall|j: int| 0 <= j < i ==> name_seq(names@)[j] != key@,
        decreases names.len() - i,
    {
        if names[i] == *key {
            proof {
                assert(name_seq(names@)[i as int] == key@);
                lemma_position_unique(name_seq(names@), key@, i as int);
            }
            return Some(i);
        }
        i += 1;
    }
    None
}

} // verus!
