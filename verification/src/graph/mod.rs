//! The render graph: named nodes with "must execute before" edges.
//!
//! Nodes are registered under unique names and carry a payload of the
//! caller's choosing. Edges are declared between names; an edge that would
//! close a cycle is refused when it is declared, so every graph that exists
//! can be scheduled.

pub mod model;
pub mod reach;
pub mod schedule;

use crate::error::RenderError;
use crate::graph::model::{lemma_new_node_keeps_wf, lemma_safe_edge_keeps_wf, GraphModel};
use crate::names::{find_name, lemma_name_seq_push, name_seq};
use vstd::prelude::*;

verus! {

/// A directed acyclic graph of named nodes, each holding a payload `T`.
pub struct RenderGraph<T> {
    names: Vec<String>,
    nodes: Vec<T>,
    edges: Vec<(usize, usize)>,
}

/// The set of index pairs that occur in a list of edges.
pub open spec fn edge_set(edges: Seq<(usize, usize)>) -> Set<(int, int)> {
    Set::new(
        |e: (int, int)|
            exists|k: int|
                0 <= k < edges.len() && (#[trigger] edges[k]).0 == e.0 && edges[k].1 == e.1,
    )
}

/// Appending an edge to the list inserts its pair into the set.
pub proof fn lemma_edge_set_push(edges: Seq<(usize, usize)>, e: (usize, usize))
    ensures
        edge_set(edges.push(e)) == edge_set(edges).insert((e.0 as int, e.1 as int)),
{
    let after = edges.push(e);
    assert forall|p: (int, int)| edge_set(after).contains(p) implies edge_set(edges).insert(
        (e.0 as int, e.1 as int),
    ).contains(p) by {
        let k = choose|k: int|
            0 <= k < after.len() && (#[trigger] after[k]).0 == p.0 && after[k].1 == p.1;
        if k < edges.len() {
            assert(edges[k].0 == p.0 && edges[k].1 == p.1);
        }
    }
    assert forall|p: (int, int)|
        edge_set(edges).insert((e.0 as int, e.1 as int)).contains(p) implies edge_set(
        after,
    ).contains(p) by {
        if edge_set(edges).contains(p) {
            let k = choose|k: int|
                0 <= k < edges.len() && (#[trigger] edges[k]).0 == p.0 && edges[k].1 == p.1;
            assert(after[k].0 == p.0 && after[k].1 == p.1);
        } else {
            let k = edges.len() as int;
            assert(after[k].0 == p.0 && after[k].1 == p.1);
        }
    }
    assert(edge_set(after) =~= edge_set(edges).insert((e.0 as int, e.1 as int)));
}

impl<T> View for RenderGraph<T> {
    type V = GraphModel;

    closed spec fn view(&self) -> GraphModel {
        GraphModel { names: name_seq(self.names@), edges: edge_set(self.edges@) }
    }
}

impl<T> RenderGraph<T> {
    /// The payloads, by node index.
    pub closed spec fn payloads(&self) -> Seq<T> {
        self.nodes@
    }

    /// Names are unique, edges join registered nodes, no cycle exists, and
    /// every node has its payload.
    pub open spec fn wf(&self) -> bool {
        &&& self@.wf()
        &&& self.payloads().len() == self@.names.len()
        &&& self.edges_listed_once()
    }

    /// No edge is stored twice.
    pub closed spec fn edges_listed_once(&self) -> bool {
        forall|i: int, j: int| 0 <= i < j < self.edges.len() ==> self.edges[i] != self.edges[j]
    }

    /// An empty graph.
    pub fn new() -> (g: Self)
        ensures
            g.wf(),
            g@ == GraphModel::empty(),
            g.payloads() == Seq::<T>::empty(),
    {
        let g = RenderGraph { names: Vec::new(), nodes: Vec::new(), edges: Vec::new() };
        proof {
            assert(g@.names =~= Seq::empty());
            assert(g@.edges =~= Set::empty());
            assert(g@.ranked_by(Seq::empty()));
        }
        g
    }

    /// Number of registered nodes.
    pub fn node_count(&self) -> (n: usize)
        ensures
            n == self@.node_count(),
    {
        self.names.len()
    }

    /// Index of the node registered under `name`.
    pub fn node_id(&self, name: &str) -> (r: Option<usize>)
        requires
            self.wf(),
        ensures
            r == if self@.has_node(name@) {
                Some(self@.id_of(name@) as usize)
            } else {
                None
            },
    {
        let key = name.to_owned();
        find_name(&self.names, &key)
    }

    /// Name of node `id`, if such a node exists.
    pub fn node_name(&self, id: usize) -> (r: Option<&String>)
        ensures
            match r {
                Some(name) => id < self@.node_count() && name@ == self@.names[id as int],
                None => id >= self@.node_count(),
            },
    {
        if id < self.names.len() {
            Some(&self.names[id])
        } else {
            None
        }
    }

    /// The declared edges as index pairs `(from, to)`, each once.
    pub fn edges(&self) -> (list: Vec<(usize, usize)>)
        requires
            self.wf(),
        ensures
            edge_set(list@) == self@.edges,
            forall|i: int, j: int| 0 <= i < j < list.len() ==> list[i] != list[j],
    {
        let mut list: Vec<(usize, usize)> = Vec::new();
        let mut k: usize = 0;
        while k < self.edges.len()
            invariant
                k <= self.edges.len(),
                list@ == self.edges@.take(k as int),
            decreases self.edges.len() - k,
        {
            let (a, b) = self.edges[k];
            list.push((a, b));
            assert(self.edges@.take(k + 1) =~= self.edges@.take(k as int).push((a, b)));
            k += 1;
        }
        assert(self.edges@.take(self.edges.len() as int) =~= self.edges@);
        list
    }

    /// Payload of node `id`, if such a node exists.
    pub fn node(&self, id: usize) -> (r: Option<&T>)
        requires
            self.wf(),
        ensures
            r == if id < self@.node_count() {
                Some(&self.payloads()[id as int])
            } else {
                None
            },
    {
        if id < self.nodes.len() {
            Some(&self.nodes[id])
        } else {
            None
        }
    }

    /// Exchanges the payload of node `id` with `*node`; answers whether the
    /// node exists. Names and edges stay as they are.
    pub fn swap_node(&mut self, id: usize, node: &mut T) -> (swapped: bool)
        requires
            old(self).wf(),
        ensures
            final(self).wf(),
            final(self)@ == old(self)@,
            swapped == (id < old(self)@.node_count()),
            swapped ==> final(self).payloads() == old(self).payloads().update(
                id as int,
                *old(node),
            ) && *final(node) == old(self).payloads()[id as int],
            !swapped ==> final(self).payloads() == old(self).payloads() && *final(node) == *old(
                node,
            ),
    {
        if id < self.nodes.len() {
            self.nodes.set_and_swap(id, node);
            true
        } else {
            false
        }
    }

    /// Whether the edge `from -> to` has been declared.
    pub fn has_edge(&self, from: usize, to: usize) -> (r: bool)
        ensures
            r == self@.has_edge(from as int, to as int),
    {
        let mut k: usize = 0;
        while k < self.edges.len()
            invariant
                k <= self.edges.len(),
                forall|j: int|
                    0 <= j < k ==> !((#[trigger] self.edges[j]).0 == from && self.edges[j].1 == to),
            decreases self.edges.len() - k,
        {
            if self.edges[k].0 == from && self.edges[k].1 == to {
                return true;
            }
            k += 1;
        }
        false
    }

    /// Registers `node` under `name`. Fails with `DuplicateNode` when the
    /// name is taken, and then leaves the graph as it was.
    pub fn add_node(&mut self, name: &str, node: T) -> (r: Result<usize, RenderError>)
        requires
            old(self).wf(),
        ensures
            final(self).wf(),
            r == old(self)@.add_node_result(name@),
            r matches Ok(id) ==> id == old(self)@.node_count(),
            final(self)@ == old(self)@.after_add_node(name@),
            final(self).payloads() == if r is Ok {
                old(self).payloads().push(node)
            } else {
                old(self).payloads()
            },
    {
        let key = name.to_owned();
        match find_name(&self.names, &key) {
            Some(_) => Err(RenderError::DuplicateNode),
            None => {
                let id = self.names.len();
                proof {
                    lemma_new_node_keeps_wf(self@, name@);
                    lemma_name_seq_push(self.names@, key);
                }
                self.names.push(key);
                self.nodes.push(node);
                Ok(id)
            },
        }
    }

    /// Declares that `from` must execute before `to`.
    ///
    /// Fails with `UnknownNode` when either name is not registered, and with
    /// `CycleDetected` when the edge would close a cycle. A failed call
    /// leaves the graph as it was; declaring an edge twice changes nothing.
    pub fn add_edge(&mut self, from: &str, to: &str) -> (r: Result<(), RenderError>)
        requires
            old(self).wf(),
        ensures
            final(self).wf(),
            r == old(self)@.add_edge_result(from@, to@),
            final(self)@ == old(self)@.after_add_edge(from@, to@),
            final(self).payloads() == old(self).payloads(),
    {
        let from_key = from.to_owned();
        let to_key = to.to_owned();
        let a = match find_name(&self.names, &from_key) {
            Some(a) => a,
            None => {
                return Err(RenderError::UnknownNode);
            },
        };
        let b = match find_name(&self.names, &to_key) {
            Some(b) => b,
            None => {
                return Err(RenderError::UnknownNode);
            },
        };
        let seen = self.reachable_from(b);
        if seen[a] {
            return Err(RenderError::CycleDetected);
        }
        proof {
            lemma_safe_edge_keeps_wf(self@, a as int, b as int);
            lemma_edge_set_push(self.edges@, (a, b));
        }
        if !self.has_edge(a, b) {
            self.edges.push((a, b));
        } else {
            assert(self@.edges.insert((a as int, b as int)) =~= self@.edges);
        }
        Ok(())
    }
}

} // verus!
