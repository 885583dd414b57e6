//! Which nodes a node leads to.

use crate::flags::{count_unset, lemma_set_lowers_count};
use crate::graph::model::{
    lemma_closed_set_holds_path, lemma_reaches_extend, lemma_stranger_reaches_nothing,
};
use crate::graph::RenderGraph;
use vstd::prelude::*;

verus! {

impl<T> RenderGraph<T> {
    /// Marks `start` and every node that some walk from `start` arrives at.
    ///
    /// Edges are swept until a sweep marks nothing new; each productive sweep
    /// sets at least one more flag, so at most as many sweeps as nodes run.
    pub fn reachable_from(&self, start: usize) -> (seen: Vec<bool>)
        requires
            self.wf(),
        ensures
            seen.len() == self@.node_count(),
            forall|v: int|
                0 <= v < seen.len() ==> (seen[v] <==> self@.reaches_or_is(start as int, v)),
    {
        let n = self.names.len();
        let mut seen: Vec<bool> = vec![false; n];
        if start >= n {
            proof {
                assert forall|v: int| 0 <= v < n implies !self@.reaches_or_is(start as int, v) by {
                    lemma_stranger_reaches_nothing(self@, start as int, v);
                }
            }
            return seen;
        }
        seen.set(start, true);
        let mut changed = true;
        while changed
            invariant
                self.wf(),
                n == self@.names.len(),
                seen.len() == n,
                start < n,
                seen[start as int],
                forall|v: int| 0 <= v < n && seen[v] ==> self@.reaches_or_is(start as int, v),
                !changed ==> forall|x: int, y: int|
                    0 <= x < n && seen[x] && #[trigger] self@.edges.contains((x, y)) ==> seen[y],
            decreases count_unset(seen@) + if changed { 1nat } else { 0nat },
        {
            changed = false;
            let ghost before = seen@;
            let mut k: usize = 0;
            while k < self.edges.len()
                invariant
                    self.wf(),
                    n == self@.names.len(),
                    seen.len() == n,
                    start < n,
                    k <= self.edges.len(),
                    seen[start as int],
                    forall|v: int| 0 <= v < n && seen[v] ==> self@.reaches_or_is(start as int, v),
                    changed ==> count_unset(seen@) < count_unset(before),
                    !changed ==> seen@ == before,
                    !changed ==> forall|j: int|
                        0 <= j < k && seen[(#[trigger] self.edges[j]).0 as int]
                            ==> seen[self.edges[j].1 as int],
                decreases self.edges.len() - k,
            {
                let (x, y) = self.edges[k];
                assert(self@.edges.contains((x as int, y as int)));
                if seen[x] && !seen[y] {
                    proof {
                        lemma_set_lowers_count(seen@, y as int);
                        lemma_reaches_extend(self@, start as int, x as int, y as int);
                    }
                    seen.set(y, true);
                    changed = true;
                }
                k += 1;
            }
            proof {
                if !changed {
                    assert forall|x: int, y: int|
                        0 <= x < n && seen[x] && #[trigger] self@.edges.contains(
                            (x, y),
                        ) implies seen[y] by {
                        let j = choose|j: int|
                            0 <= j < self.edges.len() && (#[trigger] self.edges[j]).0 == x
                                && self.edges[j].1 == y;
                        assert(seen[self.edges[j].0 as int]);
                    }
                }
            }
        }
        proof {
            let marked = Set::new(|v: int| 0 <= v < n && seen[v]);
            assert forall|v: int| 0 <= v < n && self@.reaches_or_is(
                start as int,
                v,
            ) implies seen[v] by {
                if v != start {
                    let p = choose|p: Seq<int>| #[trigger]
                        self@.is_path(p) && p[0] == start && p.last() == v;
                    lemma_closed_set_holds_path(self@, marked, p, p.len() - 1);
                }
            }
        }
        seen
    }
}

} // verus!
