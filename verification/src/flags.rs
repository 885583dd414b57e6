//! Counting the unset entries of a flag vector.
//!
//! Worklist-free graph traversals in this crate mark nodes in a `Vec<bool>`
//! and terminate because every productive round sets at least one more flag.

use vstd::prelude::*;

verus! {

/// Number of `false` entries in `flags`.
pub open spec fn count_unset(flags: Seq<bool>) -> nat
    decreases flags.len(),
{
    if flags.len() == 0 {
        0
    } else {
        count_unset(flags.drop_last()) + if flags.last() { 0nat } else { 1nat }
    }
}

/// Setting a flag that was unset lowers the count by exactly one.
pub proof fn lemma_set_lowers_count(flags: Seq<bool>, i: int)
    requires
        0 <= i < flags.len(),
        !flags[i],
    ensures
        count_unset(flags.update(i, true)) + 1 == count_unset(flags),
    decreases flags.len(),
{
    let after = flags.update(i, true);
    if i == flags.len() - 1 {
        assert(after.drop_last() =~= flags.drop_last());
    } else {
        lemma_set_lowers_count(flags.drop_last(), i);
        assert(after.drop_last() =~= flags.drop_last().update(i, true));
    }
}

/// A vector with no unset flag is set everywhere.
pub proof fn lemma_zero_count_all_set(flags: Seq<bool>)
    requires
        count_unset(flags) == 0,
    ensures
        forall|i: int| 0 <= i < flags.len() ==> flags[i],
    decreases flags.len(),
{
    if flags.len() > 0 {
        lemma_zero_count_all_set(flags.drop_last());
        assert forall|i: int| 0 <= i < flags.len() implies flags[i] by {
            if i < flags.len() - 1 {
                assert(flags.drop_last()[i] == flags[i]);
            }
        }
    }
}

/// A vector that is set everywhere has no unset flag.
pub proof fn lemma_all_set_zero_count(flags: Seq<bool>)
    requires
        forall|i: int| 0 <= i < flags.len() ==> flags[i],
    ensures
        count_unset(flags) == 0,
    decreases flags.len(),
{
    if flags.len() > 0 {
        assert forall|i: int| 0 <= i < flags.drop_last().len() implies flags.drop_last()[i] by {
            assert(flags.drop_last()[i] == flags[i]);
        }
        lemma_all_set_zero_count(flags.drop_last());
    }
}

/// The count never exceeds the length, and equals it when nothing is set.
pub proof fn lemma_count_bounds(flags: Seq<bool>)
    ensures
        count_unset(flags) <= flags.len(),
        (forall|i: int| 0 <= i < flags.len() ==> !flags[i]) ==> count_unset(flags) == flags.len(),
    decreases flags.len(),
{
    if flags.len() > 0 {
        lemma_count_bounds(flags.drop_last());
        if forall|i: int| 0 <= i < flags.len() ==> !flags[i] {
            assert forall|i: int| 0 <= i < flags.drop_last().len() implies !flags.drop_last()[i] by {
                assert(flags.drop_last()[i] == flags[i]);
            }
        }
    }
}

} // verus!
