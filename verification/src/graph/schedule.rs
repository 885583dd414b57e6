//! The per-frame execution order.

use crate::flags::{count_unset, lemma_all_set_zero_count, lemma_count_bounds, lemma_set_lowers_count};
use crate::graph::model::{lemma_unplaced_has_ready, occurs_before, position_exists};
use crate::graph::RenderGraph;
use vstd::prelude::*;

verus! {

impl<T> RenderGraph<T> {
    /// Whether every node that `node` waits for has been placed.
    fn sources_placed(&self, placed: &Vec<bool>, node: usize) -> (r: bool)
        requires
            self.wf(),
            placed.len() == self@.node_count(),
        ensures
            r == forall|x: int| #[trigger] self@.edges.contains((x, node as int)) ==> placed[x],
    {
        let mut k: usize = 0;
        while k < self.edges.len()
            invariant
                self.wf(),
                placed.len() == self@.names.len(),
                k <= self.edges.len(),
                forall|j: int|
                    0 <= j < k && (#[trigger] self.edges[j]).1 == node ==> placed[self.edges[j].0 as int],
            decreases self.edges.len() - k,
        {
            let (x, y) = self.edges[k];
            assert(self@.edges.contains((x as int, y as int)));
            if y == node && !placed[x] {
                return false;
            }
            k += 1;
        }
        proof {
            assert forall|x: int| #[trigger] self@.edges.contains((x, node as int)) implies placed[x] by {
                let j = choose|j: int|
                    0 <= j < self.edges.len() && (#[trigger] self.edges[j]).0 == x
                        && self.edges[j].1 == node;
                assert(placed[self.edges[j].0 as int]);
            }
        }
        true
    }

    /// The first unplaced node that waits for nothing unplaced.
    fn next_ready(&self, placed: &Vec<bool>) -> (r: Option<usize>)
        requires
            self.wf(),
            placed.len() == self@.node_count(),
        ensures
            match r {
                Some(m) => self@.first_ready(placed@, m as int),
                None => forall|m: int| !self@.ready(placed@, m),
            },
    {
        let mut i: usize = 0;
        while i < placed.len()
            invariant
                self.wf(),
                placed.len() == self@.names.len(),
                i <= placed.len(),
                forall|m: int| 0 <= m < i ==> !self@.ready(placed@, m),
            decreases placed.len() - i,
        {
            if !placed[i] && self.sources_placed(placed, i) {
                return Some(i);
            }
            i += 1;
        }
        None
    }

    /// The order in which the nodes execute: every node once, the source of
    /// every edge before its target, and each turn given to the node of
    /// lowest index among those that wait for nothing.
    pub fn execution_order(&self) -> (order: Vec<usize>)
        requires
            self.wf(),
        ensures
            self@.is_execution_order(order@),
    {
        let n = self.names.len();
        let mut placed: Vec<bool> = vec![false; n];
        let mut order: Vec<usize> = Vec::new();
        proof {
            lemma_count_bounds(placed@);
        }
        loop
            invariant
                self.wf(),
                n == self@.names.len(),
                placed.len() == n,
                order.len() + count_unset(placed@) == n,
                forall|k: int| 0 <= k < order.len() ==> order[k] < n && placed[order[k] as int],
                forall|v: int| 0 <= v < n && placed[v] ==> position_exists(order@, v),
                forall|i: int, j: int| 0 <= i < j < order.len() ==> order[i] != order[j],
                forall|x: int, y: int|
                    0 <= y < n && placed[y] && #[trigger] self@.edges.contains((x, y)) ==> placed[x],
                forall|i: int, j: int|
                    0 <= i < order.len() && 0 <= j < order.len() && #[trigger] self@.edges.contains(
                        (order[i] as int, order[j] as int),
                    ) ==> i < j,
                placed@ == self@.placed_by(order@, order.len() as int),
                forall|k: int|
                    0 <= k < order.len() ==> self@.first_ready(
                        #[trigger] self@.placed_by(order@, k),
                        order[k] as int,
                    ),
            ensures
                forall|m: int| !self@.ready(placed@, m),
            decreases count_unset(placed@),
        {
            match self.next_ready(&placed) {
                None => {
                    break ;
                },
                Some(m) => {
                    let ghost old_order = order@;
                    let ghost old_placed = placed@;
                    proof {
                        lemma_set_lowers_count(placed@, m as int);
                    }
                    placed.set(m, true);
                    order.push(m);
                    proof {
                        let last = old_order.len() as int;
                        assert forall|k: int| 0 <= k <= last implies self@.placed_by(order@, k)
                            == self@.placed_by(old_order, k) by {
                            assert forall|v: int| 0 <= v < n implies occurs_before(order@, k, v)
                                == occurs_before(old_order, k, v) by {
                                if occurs_before(order@, k, v) {
                                    let j = choose|j: int|
                                        0 <= j < k && j < order.len() && #[trigger] order[j] == v;
                                    assert(old_order[j] == v);
                                }
                                if occurs_before(old_order, k, v) {
                                    let j = choose|j: int|
                                        0 <= j < k && j < old_order.len() && #[trigger] old_order[j]
                                            == v;
                                    assert(order[j] == v);
                                }
                            }
                            assert(self@.placed_by(order@, k) =~= self@.placed_by(old_order, k));
                        }
                        assert forall|v: int| 0 <= v < n implies placed[v] == occurs_before(
                            order@,
                            last + 1,
                            v,
                        ) by {
                            if v == m {
                                assert(order[last] == v);
                            } else {
                                assert(old_placed[v] == occurs_before(old_order, last, v));
                                if occurs_before(old_order, last, v) {
                                    let j = choose|j: int|
                                        0 <= j < last && j < old_order.len() && #[trigger] old_order[j]
                                            == v;
                                    assert(order[j] == v);
                                }
                                if occurs_before(order@, last + 1, v) {
                                    let j = choose|j: int|
                                        0 <= j < last + 1 && j < order.len() && #[trigger] order[j]
                                            == v;
                                    assert(j < last);
                                    assert(old_order[j] == v);
                                }
                            }
                        }
                        assert(placed@ =~= self@.placed_by(order@, last + 1));
                        assert forall|k: int| 0 <= k < order.len() implies self@.first_ready(
                            #[trigger] self@.placed_by(order@, k),
                            order[k] as int,
                        ) by {
                            if k < last {
                                assert(self@.first_ready(
                                    self@.placed_by(old_order, k),
                                    old_order[k] as int,
                                ));
                            }
                        }
                        assert forall|v: int| 0 <= v < n && placed[v] implies position_exists(
                            order@,
                            v,
                        ) by {
                            if v == m {
                                assert(order[last] == v);
                            } else {
                                assert(position_exists(old_order, v));
                                let k = choose|k: int|
                                    0 <= k < old_order.len() && #[trigger] old_order[k] == v;
                                assert(order[k] == v);
                            }
                        }
                        assert forall|i: int, j: int|
                            0 <= i < order.len() && 0 <= j < order.len()
                                && #[trigger] self@.edges.contains(
                                (order[i] as int, order[j] as int),
                            ) implies i < j by {
                            if j == last && i == last {
                                assert(old_placed[m as int]);
                            } else if j == last {
                            } else if i == last {
                                assert(old_placed[order[j] as int]);
                                assert(old_placed[m as int]);
                            } else {
                                assert(old_order[i] == order[i] && old_order[j] == order[j]);
                            }
                        }
                    }
                },
            }
        }
        proof {
            if exists|v: int| 0 <= v < placed.len() && !placed[v] {
                lemma_unplaced_has_ready(self@, placed@);
                let m = choose|m: int| self@.ready(placed@, m);
                assert(false);
            }
            lemma_all_set_zero_count(placed@);
        }
        order
    }
}

} // verus!
