//! The mathematical render graph: names, ordering edges, paths and schedules.

use crate::error::RenderError;
use crate::names::{distinct, has_name, lemma_push_keeps_distinct, position_of};
use vstd::prelude::*;

verus! {

/// A render graph as mathematics: node `i` is called `names[i]`, and the pair
/// `(a, b)` in `edges` says that node `a` must execute before node `b`.
pub struct GraphModel {
    pub names: Seq<Seq<char>>,
    pub edges: Set<(int, int)>,
}

/// One step of building a graph.
pub enum GraphOp {
    /// Register a node under a name.
    AddNode(Seq<char>),
    /// Declare that the first node executes before the second.
    AddEdge(Seq<char>, Seq<char>),
}

impl GraphModel {
    /// The graph with no node and no edge.
    pub open spec fn empty() -> GraphModel {
        GraphModel { names: Seq::empty(), edges: Set::empty() }
    }

    pub open spec fn node_count(self) -> nat {
        self.names.len()
    }

    pub open spec fn has_node(self, name: Seq<char>) -> bool {
        has_name(self.names, name)
    }

    /// Index of the node called `name`; meaningful when `has_node(name)`.
    pub open spec fn id_of(self, name: Seq<char>) -> int {
        position_of(self.names, name)
    }

    pub open spec fn has_edge(self, from: int, to: int) -> bool {
        self.edges.contains((from, to))
    }

    pub open spec fn names_distinct(self) -> bool {
        distinct(self.names)
    }

    pub open spec fn edges_in_range(self) -> bool {
        forall|a: int, b: int| #[trigger]
            self.edges.contains((a, b)) ==> 0 <= a < self.names.len() && 0 <= b
                < self.names.len()
    }

    /// `rank` numbers the nodes so that every edge climbs.
    pub open spec fn ranked_by(self, rank: Seq<int>) -> bool {
        &&& rank.len() == self.names.len()
        &&& forall|a: int, b: int| #[trigger] self.edges.contains((a, b)) ==> rank[a] < rank[b]
    }

    /// A graph is acyclic when its nodes can be numbered so that every edge
    /// climbs.
    pub open spec fn acyclic(self) -> bool {
        exists|rank: Seq<int>| self.ranked_by(rank)
    }

    pub open spec fn wf(self) -> bool {
        &&& self.names_distinct()
        &&& self.edges_in_range()
        &&& self.acyclic()
    }

    /// Step `k` of the walk `p` follows an edge.
    pub open spec fn hop(self, p: Seq<int>, k: int) -> bool {
        self.edges.contains((p[k], p[k + 1]))
    }

    /// `p` is a walk of at least one edge.
    pub open spec fn is_path(self, p: Seq<int>) -> bool {
        &&& p.len() >= 2
        &&& forall|k: int| 0 <= k < p.len() - 1 ==> #[trigger] self.hop(p, k)
    }

    /// Some walk of at least one edge leads from `a` to `b`.
    pub open spec fn reaches(self, a: int, b: int) -> bool {
        exists|p: Seq<int>| #[trigger] self.is_path(p) && p[0] == a && p.last() == b
    }

    /// `b` is `a` itself or can be reached from it.
    pub open spec fn reaches_or_is(self, a: int, b: int) -> bool {
        a == b || self.reaches(a, b)
    }

    /// The edge `from -> to` would close a cycle: it is a self-loop, or `to`
    /// already leads back to `from`.
    pub open spec fn closes_cycle(self, from: int, to: int) -> bool {
        self.reaches_or_is(to, from)
    }

    pub open spec fn with_node(self, name: Seq<char>) -> GraphModel {
        GraphModel { names: self.names.push(name), edges: self.edges }
    }

    pub open spec fn with_edge(self, from: int, to: int) -> GraphModel {
        GraphModel { names: self.names, edges: self.edges.insert((from, to)) }
    }

    /// What registering `name` answers: the new node's index, or
    /// `DuplicateNode` when the name is taken.
    pub open spec fn add_node_result(self, name: Seq<char>) -> Result<usize, RenderError> {
        if self.has_node(name) {
            Err(RenderError::DuplicateNode)
        } else {
            Ok(self.names.len() as usize)
        }
    }

    /// The graph after an attempt to register `name`.
    pub open spec fn after_add_node(self, name: Seq<char>) -> GraphModel {
        if self.has_node(name) {
            self
        } else {
            self.with_node(name)
        }
    }

    /// What declaring the edge `from -> to` answers.
    pub open spec fn add_edge_result(self, from: Seq<char>, to: Seq<char>) -> Result<
        (),
        RenderError,
    > {
        if !self.has_node(from) || !self.has_node(to) {
            Err(RenderError::UnknownNode)
        } else if self.closes_cycle(self.id_of(from), self.id_of(to)) {
            Err(RenderError::CycleDetected)
        } else {
            Ok(())
        }
    }

    /// The graph after an attempt to declare the edge `from -> to`: extended
    /// on success, untouched on failure.
    pub open spec fn after_add_edge(self, from: Seq<char>, to: Seq<char>) -> GraphModel {
        if self.add_edge_result(from, to) is Ok {
            self.with_edge(self.id_of(from), self.id_of(to))
        } else {
            self
        }
    }

    /// The graph after one building step, accepted or refused.
    pub open spec fn apply(self, op: GraphOp) -> GraphModel {
        match op {
            GraphOp::AddNode(name) => self.after_add_node(name),
            GraphOp::AddEdge(from, to) => self.after_add_edge(from, to),
        }
    }

    /// The graph after the building steps `ops`, first to last.
    pub open spec fn apply_all(self, ops: Seq<GraphOp>) -> GraphModel
        decreases ops.len(),
    {
        if ops.len() == 0 {
            self
        } else {
            self.apply_all(ops.drop_last()).apply(ops.last())
        }
    }

    /// `order` lists every node exactly once and places the source of every
    /// edge before its target.
    pub open spec fn is_schedule(self, order: Seq<usize>) -> bool {
        &&& order.len() == self.names.len()
        &&& forall|k: int| 0 <= k < order.len() ==> order[k] < self.names.len()
        &&& forall|v: int| 0 <= v < self.names.len() ==> #[trigger] position_exists(order, v)
        &&& forall|i: int, j: int| 0 <= i < j < order.len() ==> order[i] != order[j]
        &&& forall|i: int, j: int|
            0 <= i < order.len() && 0 <= j < order.len() && #[trigger] self.edges.contains(
                (order[i] as int, order[j] as int),
            ) ==> i < j
    }

    /// Node `m` has not been placed yet and nothing it waits for is missing.
    pub open spec fn ready(self, placed: Seq<bool>, m: int) -> bool {
        &&& 0 <= m < self.names.len()
        &&& !placed[m]
        &&& forall|x: int| #[trigger] self.edges.contains((x, m)) ==> placed[x]
    }

    /// `m` is the ready node of lowest index.
    pub open spec fn first_ready(self, placed: Seq<bool>, m: int) -> bool {
        &&& self.ready(placed, m)
        &&& forall|x: int| 0 <= x < m ==> !self.ready(placed, x)
    }

    /// Which nodes the first `k` entries of `order` have placed.
    pub open spec fn placed_by(self, order: Seq<usize>, k: int) -> Seq<bool> {
        Seq::new(self.names.len(), |v: int| occurs_before(order, k, v))
    }

    /// `order` is the schedule in which every turn goes to the ready node of
    /// lowest index. A graph has exactly one such order.
    pub open spec fn is_execution_order(self, order: Seq<usize>) -> bool {
        &&& self.is_schedule(order)
        &&& forall|k: int|
            0 <= k < order.len() ==> self.first_ready(
                #[trigger] self.placed_by(order, k),
                order[k] as int,
            )
    }
}

/// Node `v` occurs among the first `k` entries of `order`.
pub open spec fn occurs_before(order: Seq<usize>, k: int, v: int) -> bool {
    exists|j: int| 0 <= j < k && j < order.len() && #[trigger] order[j] == v
}

/// Node `v` occurs somewhere in `order`.
pub open spec fn position_exists(order: Seq<usize>, v: int) -> bool {
    exists|k: int| 0 <= k < order.len() && #[trigger] order[k] == v
}

/// Along any walk the rank strictly grows.
pub proof fn lemma_path_climbs(g: GraphModel, rank: Seq<int>, p: Seq<int>)
    requires
        g.ranked_by(rank),
        g.is_path(p),
    ensures
        rank[p[0]] < rank[p.last()],
    decreases p.len(),
{
    if p.len() == 2 {
        assert(g.hop(p, 0));
    } else {
        let q = p.drop_last();
        assert forall|k: int| 0 <= k < q.len() - 1 implies #[trigger] g.hop(q, k) by {
            assert(g.hop(p, k));
        }
        lemma_path_climbs(g, rank, q);
        assert(g.hop(p, p.len() - 2));
    }
}

/// In a well-formed graph no node leads back to itself.
pub proof fn lemma_no_cycle(g: GraphModel, v: int)
    requires
        g.acyclic(),
    ensures
        !g.reaches(v, v),
{
    if g.reaches(v, v) {
        let rank = choose|rank: Seq<int>| g.ranked_by(rank);
        let p = choose|p: Seq<int>| #[trigger] g.is_path(p) && p[0] == v && p.last() == v;
        lemma_path_climbs(g, rank, p);
    }
}

/// Reachability extends along an edge.
pub proof fn lemma_reaches_extend(g: GraphModel, a: int, x: int, y: int)
    requires
        g.reaches_or_is(a, x),
        g.edges.contains((x, y)),
    ensures
        g.reaches(a, y),
{
    if a == x {
        let p = seq![a, y];
        assert forall|k: int| 0 <= k < p.len() - 1 implies #[trigger] g.hop(p, k) by {
            assert(p[0] == a && p[1] == y);
        }
        assert(g.is_path(p) && p[0] == a && p.last() == y);
    } else {
        let p = choose|p: Seq<int>| #[trigger] g.is_path(p) && p[0] == a && p.last() == x;
        let q = p.push(y);
        assert forall|k: int| 0 <= k < q.len() - 1 implies #[trigger] g.hop(q, k) by {
            if k < p.len() - 1 {
                assert(g.hop(p, k));
            }
        }
        assert(g.is_path(q) && q[0] == a && q.last() == y);
    }
}

/// A set that holds `p[0]` and is closed under the edges holds every node of
/// the walk `p`.
pub proof fn lemma_closed_set_holds_path(g: GraphModel, s: Set<int>, p: Seq<int>, k: int)
    requires
        g.is_path(p),
        s.contains(p[0]),
        forall|x: int, y: int| s.contains(x) && #[trigger] g.edges.contains((x, y)) ==> s.contains(y),
        0 <= k < p.len(),
    ensures
        s.contains(p[k]),
    decreases k,
{
    if k > 0 {
        lemma_closed_set_holds_path(g, s, p, k - 1);
        assert(g.hop(p, k - 1));
    }
}

/// An edge that closes a cycle cannot be added without losing acyclicity:
/// rejecting it is the only way to keep the graph schedulable.
pub proof fn lemma_closing_edge_is_cyclic(g: GraphModel, from: int, to: int)
    requires
        g.closes_cycle(from, to),
    ensures
        !g.with_edge(from, to).acyclic(),
{
    let g2 = g.with_edge(from, to);
    if g2.acyclic() {
        let rank = choose|rank: Seq<int>| g2.ranked_by(rank);
        assert(g2.edges.contains((from, to)));
        if from != to {
            let p = choose|p: Seq<int>| #[trigger] g.is_path(p) && p[0] == to && p.last() == from;
            assert forall|k: int| 0 <= k < p.len() - 1 implies #[trigger] g2.hop(p, k) by {
                assert(g.hop(p, k));
            }
            lemma_path_climbs(g2, rank, p);
        }
    }
}

/// An edge between registered nodes that closes no cycle keeps the graph
/// well-formed.
pub proof fn lemma_safe_edge_keeps_wf(g: GraphModel, from: int, to: int)
    requires
        g.wf(),
        0 <= from < g.names.len(),
        0 <= to < g.names.len(),
        !g.closes_cycle(from, to),
    ensures
        g.with_edge(from, to).wf(),
{
    let g2 = g.with_edge(from, to);
    let rank = choose|rank: Seq<int>| g.ranked_by(rank);
    let gap = rank[from] - rank[to] + 1;
    let lift = if gap > 0 { gap } else { 0 };
    let rank2 = Seq::new(
        g.names.len(),
        |v: int| if g.reaches_or_is(to, v) { rank[v] + lift } else { rank[v] },
    );
    assert forall|a: int, b: int| #[trigger] g2.edges.contains((a, b)) implies rank2[a]
        < rank2[b] by {
        if g.edges.contains((a, b)) {
            if g.reaches_or_is(to, a) {
                lemma_reaches_extend(g, to, a, b);
            }
        }
    }
    assert(g2.ranked_by(rank2));
}

/// Registering a fresh name keeps the graph well-formed.
pub proof fn lemma_new_node_keeps_wf(g: GraphModel, name: Seq<char>)
    requires
        g.wf(),
        !g.has_node(name),
    ensures
        g.with_node(name).wf(),
{
    let g2 = g.with_node(name);
    let rank = choose|rank: Seq<int>| g.ranked_by(rank);
    assert(g2.ranked_by(rank.push(0)));
    lemma_push_keeps_distinct(g.names, name);
}

/// Whatever is asked of a well-formed graph, it stays well-formed: a step
/// that would break it is refused and changes nothing.
pub proof fn lemma_step_keeps_wf(g: GraphModel, op: GraphOp)
    requires
        g.wf(),
    ensures
        g.apply(op).wf(),
        (op matches GraphOp::AddEdge(from, to) && g.add_edge_result(from, to) is Err) ==> g.apply(
            op,
        ) == g,
        (op matches GraphOp::AddNode(name) && g.add_node_result(name) is Err) ==> g.apply(op) == g,
{
    match op {
        GraphOp::AddNode(name) => {
            if !g.has_node(name) {
                lemma_new_node_keeps_wf(g, name);
            }
        },
        GraphOp::AddEdge(from, to) => {
            if g.add_edge_result(from, to) is Ok {
                let a = g.id_of(from);
                let b = g.id_of(to);
                assert(0 <= a < g.names.len() && 0 <= b < g.names.len());
                lemma_safe_edge_keeps_wf(g, a, b);
            }
        },
    }
}

/// Every graph that any sequence of registrations and declarations builds
/// from the empty graph is well-formed.
pub proof fn lemma_every_sequence_keeps_wf(ops: Seq<GraphOp>)
    ensures
        GraphModel::empty().apply_all(ops).wf(),
    decreases ops.len(),
{
    if ops.len() == 0 {
        assert(GraphModel::empty().ranked_by(Seq::empty()));
    } else {
        lemma_every_sequence_keeps_wf(ops.drop_last());
        lemma_step_keeps_wf(GraphModel::empty().apply_all(ops.drop_last()), ops.last());
    }
}

/// An index that is no node leads nowhere.
pub proof fn lemma_stranger_reaches_nothing(g: GraphModel, a: int, b: int)
    requires
        g.edges_in_range(),
        !(0 <= a < g.names.len()),
    ensures
        !g.reaches(a, b),
{
    if g.reaches(a, b) {
        let p = choose|p: Seq<int>| #[trigger] g.is_path(p) && p[0] == a && p.last() == b;
        assert(g.hop(p, 0));
    }
}

/// A node that was just registered has no edge yet, so nothing leads to it and
/// an edge out of it closes no cycle.
pub proof fn lemma_fresh_node_unreachable(g: GraphModel, name: Seq<char>, a: int)
    requires
        g.edges_in_range(),
    ensures
        !g.with_node(name).reaches(a, g.names.len() as int),
{
    let g2 = g.with_node(name);
    let fresh = g.names.len() as int;
    if g2.reaches(a, fresh) {
        let p = choose|p: Seq<int>| #[trigger] g2.is_path(p) && p[0] == a && p.last() == fresh;
        assert(g2.hop(p, p.len() - 2));
        assert(g.edges.contains((p[p.len() - 2], fresh)));
    }
}

/// In a schedule the source of every edge has its turn before the target.
pub proof fn lemma_schedule_honours_edge(g: GraphModel, order: Seq<usize>, from: int, to: int)
    requires
        g.edges_in_range(),
        g.is_schedule(order),
        g.edges.contains((from, to)),
    ensures
        exists|i: int, j: int|
            0 <= i < j < order.len() && #[trigger] order[i] == from && #[trigger] order[j] == to,
{
    assert(position_exists(order, from));
    assert(position_exists(order, to));
    let i = choose|i: int| 0 <= i < order.len() && #[trigger] order[i] == from;
    let j = choose|j: int| 0 <= j < order.len() && #[trigger] order[j] == to;
    assert(g.edges.contains((order[i] as int, order[j] as int)));
}

/// Two execution orders of one graph agree entry by entry.
pub proof fn lemma_execution_order_agrees(
    g: GraphModel,
    first: Seq<usize>,
    second: Seq<usize>,
    k: int,
)
    requires
        g.is_execution_order(first),
        g.is_execution_order(second),
        0 <= k <= first.len(),
    ensures
        first.take(k) == second.take(k),
    decreases k,
{
    if k == 0 {
        assert(first.take(0) =~= second.take(0));
    } else {
        lemma_execution_order_agrees(g, first, second, k - 1);
        let a = g.placed_by(first, k - 1);
        let b = g.placed_by(second, k - 1);
        assert forall|v: int| 0 <= v < g.names.len() implies a[v] == b[v] by {
            if occurs_before(first, k - 1, v) {
                let j = choose|j: int| 0 <= j < k - 1 && j < first.len() && #[trigger] first[j] == v;
                assert(first.take(k - 1)[j] == second.take(k - 1)[j]);
                assert(second[j] == v);
            }
            if occurs_before(second, k - 1, v) {
                let j = choose|j: int|
                    0 <= j < k - 1 && j < second.len() && #[trigger] second[j] == v;
                assert(first.take(k - 1)[j] == second.take(k - 1)[j]);
                assert(first[j] == v);
            }
        }
        assert(a =~= b);
        assert(g.first_ready(a, first[k - 1] as int));
        assert(g.first_ready(b, second[k - 1] as int));
        assert(first[k - 1] == second[k - 1]);
        assert forall|i: int| 0 <= i < k implies first.take(k)[i] == second.take(k)[i] by {
            if i < k - 1 {
                assert(first.take(k - 1)[i] == second.take(k - 1)[i]);
            }
        }
        assert(first.take(k) =~= second.take(k));
    }
}

/// A graph has one execution order only.
pub proof fn lemma_execution_order_unique(g: GraphModel, first: Seq<usize>, second: Seq<usize>)
    requires
        g.is_execution_order(first),
        g.is_execution_order(second),
    ensures
        first == second,
{
    lemma_execution_order_agrees(g, first, second, first.len() as int);
    assert(first.take(first.len() as int) =~= first);
    assert(second.take(second.len() as int) =~= second);
}

/// Index of an unplaced node among the first `k` whose rank is least.
proof fn lemma_least_unplaced(rank: Seq<int>, placed: Seq<bool>, k: int) -> (m: int)
    requires
        0 <= k <= placed.len(),
        exists|v: int| 0 <= v < k && !placed[v],
    ensures
        0 <= m < k,
        !placed[m],
        forall|v: int| 0 <= v < k && !placed[v] ==> rank[m] <= rank[v],
    decreases k,
{
    let last = k - 1;
    if exists|v: int| 0 <= v < last && !placed[v] {
        let m0 = lemma_least_unplaced(rank, placed, last);
        if !placed[last] && rank[last] < rank[m0] {
            last
        } else {
            m0
        }
    } else {
        last
    }
}

/// While a node of an acyclic graph is unplaced, some unplaced node waits for
/// nothing: scheduling never gets stuck.
pub proof fn lemma_unplaced_has_ready(g: GraphModel, placed: Seq<bool>)
    requires
        g.wf(),
        placed.len() == g.names.len(),
        exists|v: int| 0 <= v < placed.len() && !placed[v],
    ensures
        exists|m: int| g.ready(placed, m),
{
    let rank = choose|rank: Seq<int>| g.ranked_by(rank);
    let m = lemma_least_unplaced(rank, placed, placed.len() as int);
    assert forall|x: int| #[trigger] g.edges.contains((x, m)) implies placed[x] by {
        if !placed[x] {
            assert(rank[m] <= rank[x]);
        }
    }
    assert(g.ready(placed, m));
}

} // verus!
