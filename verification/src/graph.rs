//! The graph core: a directed graph with a tag on every node and a role on
//! every edge, whose node indices never change.

use crate::isomorphism::isomorphic;
use crate::view::{is_first_slot, lemma_slot_of_is, slot_of, EdgeView, GraphView};
use crate::subdivision::{lemma_subdivide_isomorphic, lemma_subdivide_simple, subdivide};
use crate::topology::{
    payload_at, subdivided_view, topology_add_edge, topology_add_node, topology_compact,
    topology_compacted, topology_edge_endpoints, topology_edges, topology_isomorphic,
    topology_map, topology_new, topology_nodes, weighted_view,
};
use petgraph::stable_graph::StableGraph;
use vstd::prelude::*;

verus! {

/// The stable identifier of a node: its position in insertion order.
#[derive(Clone, Copy, Debug, PartialEq, Eq, Structural, Hash)]
pub struct NodeIndex(pub usize);

impl NodeIndex {
    /// The identifier of the node at position `x`.
    pub fn new(x: usize) -> (id: Self)
        ensures
            id.0 == x,
    {
        NodeIndex(x)
    }

    /// The node's position in insertion order.
    pub fn index(self) -> (x: usize)
        ensures
            x == self.0,
    {
        self.0
    }
}

/// A node tag or edge role that can be compared by what it stands for.
pub trait ViewEq: View + Sized {
    /// Whether the two values have the same view.
    fn same(&self, other: &Self) -> (r: bool)
        ensures
            r == (self@ == other@),
    ;
}

/// A directed graph of tagged nodes and role-tagged edges.
///
/// The tags and roles are kept in insertion order; petgraph holds the
/// shape, with each node and edge weighted by the position of its payload.
pub struct OperationGraph<N, E> {
    node_weights: Vec<N>,
    edge_weights: Vec<E>,
    topology: StableGraph<usize, usize>,
}

impl<N: View, E: View> View for OperationGraph<N, E> {
    type V = GraphView<N::V, E::V>;

    closed spec fn view(&self) -> GraphView<N::V, E::V> {
        weighted_view(self.topology, self.node_weights@, self.edge_weights@)
    }
}

impl<N: View, E: View> OperationGraph<N, E> {
    /// The stored shape agrees with the stored payloads, and every edge
    /// joins two nodes of the graph.
    pub closed spec fn wf(&self) -> bool {
        &&& topology_compact(self.topology)
        &&& topology_nodes(self.topology).len() == self.node_weights@.len()
        &&& topology_edges(self.topology).len() == self.edge_weights@.len()
        &&& forall|i: int|
            0 <= i < self.node_weights@.len() ==> #[trigger] topology_nodes(self.topology)[i] == i
        &&& forall|k: int|
            0 <= k < self.edge_weights@.len() ==> {
                &&& (#[trigger] topology_edges(self.topology)[k]).2 == k
                &&& 0 <= topology_edges(self.topology)[k].0 < self.node_weights@.len()
                &&& 0 <= topology_edges(self.topology)[k].1 < self.node_weights@.len()
            }
    }

    /// In a well-formed graph every edge joins two of its nodes.
    pub proof fn lemma_view_well_formed(&self)
        requires
            self.wf(),
        ensures
            self@.well_formed(),
    {
    }

    /// A graph without nodes or edges.
    pub fn new() -> (g: Self)
        ensures
            g.wf(),
            g@ == GraphView::<N::V, E::V>::empty(),
    {
        let g = OperationGraph {
            node_weights: Vec::new(),
            edge_weights: Vec::new(),
            topology: topology_new(),
        };
        assert(g@.nodes =~= Seq::empty());
        assert(g@.edges =~= Seq::empty());
        g
    }

    /// The number of nodes.
    pub fn node_count(&self) -> (n: usize)
        requires
            self.wf(),
        ensures
            n == self@.nodes.len(),
    {
        self.node_weights.len()
    }

    /// The number of edges.
    pub fn edge_count(&self) -> (n: usize)
        requires
            self.wf(),
        ensures
            n == self@.edges.len(),
    {
        self.edge_weights.len()
    }

    /// Whether `a` identifies a node of this graph.
    pub fn contains_node(&self, a: NodeIndex) -> (r: bool)
        requires
            self.wf(),
        ensures
            r == (a.0 < self@.nodes.len()),
    {
        a.0 < self.node_weights.len()
    }

    /// Adds a node with the given tag and returns its identifier, which is
    /// the number of nodes the graph had before.
    pub fn add_node(&mut self, weight: N) -> (id: NodeIndex)
        requires
            old(self).wf(),
            old(self)@.nodes.len() < u32::MAX,
        ensures
            final(self).wf(),
            final(self)@ == old(self)@.with_node(weight@),
            id.0 == old(self)@.nodes.len(),
    {
        let position: usize = self.node_weights.len();
        self.node_weights.push(weight);
        let index: usize = topology_add_node(&mut self.topology, position);
        assert(self@.nodes =~= old(self)@.with_node(weight@).nodes);
        assert(self@.edges =~= old(self)@.with_node(weight@).edges);
        NodeIndex(index)
    }

    /// Adds an edge from `a` to `b` with the given role and returns its
    /// index, which is the number of edges the graph had before.
    pub fn add_edge(&mut self, a: NodeIndex, b: NodeIndex, weight: E) -> (index: usize)
        requires
            old(self).wf(),
            a.0 < old(self)@.nodes.len(),
            b.0 < old(self)@.nodes.len(),
            old(self)@.edges.len() < u32::MAX,
        ensures
            final(self).wf(),
            final(self)@ == old(self)@.with_edge(a.0 as int, b.0 as int, weight@),
            index == old(self)@.edges.len(),
    {
        let position: usize = self.edge_weights.len();
        self.edge_weights.push(weight);
        let index: usize = topology_add_edge(&mut self.topology, a.0, b.0, position);
        assert(self@.nodes =~= old(self)@.with_edge(a.0 as int, b.0 as int, weight@).nodes);
        assert(self@.edges =~= old(self)@.with_edge(a.0 as int, b.0 as int, weight@).edges);
        index
    }

    /// The tag of a node of the graph.
    pub fn node(&self, a: NodeIndex) -> (r: &N)
        requires
            self.wf(),
            a.0 < self@.nodes.len(),
        ensures
            r@ == self@.nodes[a.0 as int],
    {
        &self.node_weights[a.0]
    }

    /// The role of an edge of the graph.
    pub fn role(&self, e: usize) -> (r: &E)
        requires
            self.wf(),
            e < self@.edges.len(),
        ensures
            r@ == self@.edges[e as int].role,
    {
        &self.edge_weights[e]
    }

    /// The tag of node `a`, if the graph has such a node.
    pub fn node_weight(&self, a: NodeIndex) -> (r: Option<&N>)
        requires
            self.wf(),
        ensures
            a.0 < self@.nodes.len() ==> r is Some && r->0@ == self@.nodes[a.0 as int],
            a.0 >= self@.nodes.len() ==> r is None,
    {
        if a.0 < self.node_weights.len() {
            Some(&self.node_weights[a.0])
        } else {
            None
        }
    }

    /// The role of the edge with index `e`, if the graph has such an edge.
    pub fn edge_weight(&self, e: usize) -> (r: Option<&E>)
        requires
            self.wf(),
        ensures
            e < self@.edges.len() ==> r is Some && r->0@ == self@.edges[e as int].role,
            e >= self@.edges.len() ==> r is None,
    {
        if e < self.edge_weights.len() {
            Some(&self.edge_weights[e])
        } else {
            None
        }
    }

    /// The source and target of the edge with index `e`, if the graph has
    /// such an edge.
    pub fn edge_endpoints(&self, e: usize) -> (r: Option<(NodeIndex, NodeIndex)>)
        requires
            self.wf(),
        ensures
            e < self@.edges.len() ==> (r matches Some((from, to)) && from.0
                == self@.edges[e as int].from && to.0 == self@.edges[e as int].to),
            e >= self@.edges.len() ==> r is None,
    {
        let node_count: usize = self.node_weights.len();
        if e < self.edge_weights.len() {
            assert(0 <= topology_edges(self.topology)[e as int].0 < node_count);
            assert(0 <= topology_edges(self.topology)[e as int].1 < node_count);
            match topology_edge_endpoints(&self.topology, e) {
                Some((from, to)) => Some((NodeIndex(from), NodeIndex(to))),
                None => None,
            }
        } else {
            None
        }
    }

    /// The indices of the edges that end at `a`, oldest first.
    pub fn edges_into(&self, a: NodeIndex) -> (r: Vec<usize>)
        requires
            self.wf(),
        ensures
            r@.len() == self@.in_edges(a.0 as int).len(),
            forall|i: int|
                0 <= i < r@.len() ==> #[trigger] r@[i] < self@.edges.len() && self@.edges[r@[i] as int]
                    == self@.in_edges(a.0 as int)[i],
    {
        let ghost whole = self@;
        let count: usize = self.edge_weights.len();
        let mut found: Vec<usize> = Vec::new();
        let mut k: usize = 0;
        proof {
            whole.lemma_edges_until(0);
            GraphView::<N::V, E::V> { nodes: whole.nodes, edges: Seq::empty() }.lemma_no_edges(
                a.0 as int,
            );
        }
        while k < count
            invariant
                self.wf(),
                whole == self@,
                count == whole.edges.len(),
                k <= count,
                found@.len() == whole.until(k as int).in_edges(a.0 as int).len(),
                forall|i: int|
                    0 <= i < found@.len() ==> #[trigger] found@[i] < k && whole.edges[found@[i] as int]
                        == whole.until(k as int).in_edges(a.0 as int)[i],
            decreases count - k,
        {
            let ghost edge = whole.edges[k as int];
            let ghost before = whole.until(k as int).in_edges(a.0 as int);
            proof {
                whole.lemma_edges_until(k as int);
                whole.until(k as int).lemma_in_edges_with_edge(
                    edge.from,
                    edge.to,
                    edge.role,
                    a.0 as int,
                );
                assert(edge == (EdgeView { from: edge.from, to: edge.to, role: edge.role }));
            }
            let (_, to) = self.edge_endpoints(k).unwrap();
            if to.0 == a.0 {
                found.push(k);
                assert(whole.until(k + 1).in_edges(a.0 as int) == before.push(edge));
            } else {
                assert(whole.until(k + 1).in_edges(a.0 as int) == before);
            }
            k = k + 1;
        }
        proof {
            whole.lemma_edges_until(count as int);
        }
        found
    }

    /// The indices of the edges that start at `a`, oldest first.
    pub fn edges_out_of(&self, a: NodeIndex) -> (r: Vec<usize>)
        requires
            self.wf(),
        ensures
            r@.len() == self@.out_edges(a.0 as int).len(),
            forall|i: int|
                0 <= i < r@.len() ==> #[trigger] r@[i] < self@.edges.len() && self@.edges[r@[i] as int]
                    == self@.out_edges(a.0 as int)[i],
    {
        let ghost whole = self@;
        let count: usize = self.edge_weights.len();
        let mut found: Vec<usize> = Vec::new();
        let mut k: usize = 0;
        proof {
            whole.lemma_edges_until(0);
            GraphView::<N::V, E::V> { nodes: whole.nodes, edges: Seq::empty() }.lemma_no_edges(
                a.0 as int,
            );
        }
        while k < count
            invariant
                self.wf(),
                whole == self@,
                count == whole.edges.len(),
                k <= count,
                found@.len() == whole.until(k as int).out_edges(a.0 as int).len(),
                forall|i: int|
                    0 <= i < found@.len() ==> #[trigger] found@[i] < k && whole.edges[found@[i] as int]
                        == whole.until(k as int).out_edges(a.0 as int)[i],
            decreases count - k,
        {
            let ghost edge = whole.edges[k as int];
            let ghost before = whole.until(k as int).out_edges(a.0 as int);
            proof {
                whole.lemma_edges_until(k as int);
                whole.until(k as int).lemma_out_edges_with_edge(
                    edge.from,
                    edge.to,
                    edge.role,
                    a.0 as int,
                );
                assert(edge == (EdgeView { from: edge.from, to: edge.to, role: edge.role }));
            }
            let (from, _) = self.edge_endpoints(k).unwrap();
            if from.0 == a.0 {
                found.push(k);
                assert(whole.until(k + 1).out_edges(a.0 as int) == before.push(edge));
            } else {
                assert(whole.until(k + 1).out_edges(a.0 as int) == before);
            }
            k = k + 1;
        }
        proof {
            whole.lemma_edges_until(count as int);
        }
        found
    }

    /// A graph of the same shape in which node `i` carries `nodes[i]` and
    /// edge `k` carries `roles[k]`, with its nodes and edges numbered
    /// without gaps from zero.
    pub fn with_weights<N2: View, E2: View>(&self, nodes: Vec<N2>, roles: Vec<E2>) -> (g:
        OperationGraph<N2, E2>)
        requires
            self.wf(),
            nodes@.len() == self@.nodes.len(),
            roles@.len() == self@.edges.len(),
        ensures
            g.wf(),
            g@.nodes == nodes@.map_values(|n: N2| n@),
            g@.edges.len() == self@.edges.len(),
            forall|k: int|
                0 <= k < self@.edges.len() ==> #[trigger] g@.edges[k] == (EdgeView {
                    from: self@.edges[k].from,
                    to: self@.edges[k].to,
                    role: roles@[k]@,
                }),
    {
        let topology = topology_compacted(topology_map(&self.topology));
        let g = OperationGraph { node_weights: nodes, edge_weights: roles, topology };
        assert(g@.nodes =~= nodes@.map_values(|n: N2| n@));
        g
    }
}

impl<N: ViewEq, E: View> OperationGraph<N, E> {
    /// Scans the nodes in insertion order for the first one whose tag is
    /// the same as `tag`.
    pub fn find_node(&self, tag: &N) -> (r: Option<NodeIndex>)
        requires
            self.wf(),
        ensures
            match r {
                Some(id) => id.0 < self@.nodes.len() && is_first_slot(
                    self@.nodes,
                    tag@,
                    id.0 as int,
                ) && id.0 == slot_of(self@.nodes, tag@),
                None => !self@.nodes.contains(tag@) && slot_of(self@.nodes, tag@)
                    == self@.nodes.len(),
            },
    {
        let count: usize = self.node_weights.len();
        let mut i: usize = 0;
        while i < count
            invariant
                self.wf(),
                count == self@.nodes.len(),
                i <= count,
                forall|j: int| 0 <= j < i ==> self@.nodes[j] != tag@,
            decreases count - i,
        {
            if self.node_weights[i].same(tag) {
                proof {
                    lemma_slot_of_is(self@.nodes, tag@, i as int);
                }
                return Some(NodeIndex(i));
            }
            i = i + 1;
        }
        proof {
            lemma_slot_of_is(self@.nodes, tag@, count as int);
        }
        None
    }
}

/// Whether the payloads that two weights select from two graphs are the same.
pub(crate) fn payloads_match<N: ViewEq, E: ViewEq>(
    a_nodes: &Vec<N>,
    a_roles: &Vec<E>,
    x: usize,
    b_nodes: &Vec<N>,
    b_roles: &Vec<E>,
    y: usize,
) -> (r: bool)
    requires
        x < a_nodes@.len() + a_roles@.len(),
        y < b_nodes@.len() + b_roles@.len(),
    ensures
        r == (payload_at(a_nodes@, a_roles@, x as int) == payload_at(b_nodes@, b_roles@, y as int)),
{
    if x < a_nodes.len() {
        if y < b_nodes.len() {
            a_nodes[x].same(&b_nodes[y])
        } else {
            false
        }
    } else {
        if y < b_nodes.len() {
            false
        } else {
            a_roles[x - a_nodes.len()].same(&b_roles[y - b_nodes.len()])
        }
    }
}

/// The edges of a subdivided graph carry nothing, so any two match.
pub(crate) fn edges_match(x: &usize, y: &usize) -> (r: bool)
    ensures
        r,
{
    true
}

impl<N: ViewEq, E: ViewEq> OperationGraph<N, E> {
    /// The graph is small enough to be searched: its nodes and edges
    /// together, and its edges twice, stay in the range of the indices that
    /// petgraph offers.
    pub open spec fn searchable(&self) -> bool {
        &&& self@.nodes.len() + self@.edges.len() <= u32::MAX
        &&& 2 * self@.edges.len() <= u32::MAX
    }

    /// Whether the graph is small enough to be searched.
    pub fn is_searchable(&self) -> (r: bool)
        requires
            self.wf(),
        ensures
            r == self.searchable(),
    {
        let limit: usize = u32::MAX as usize;
        let nodes: usize = self.node_weights.len();
        let edges: usize = self.edge_weights.len();
        nodes <= limit && edges <= limit - nodes && edges <= limit / 2
    }

    /// The shape of the graph's subdivision: after a node for every node
    /// comes a node for every edge, which an edge enters from the edge's
    /// source and an edge leaves to the edge's target. Each node is
    /// weighted by its own index.
    fn subdivided(&self) -> (shape: StableGraph<usize, usize>)
        requires
            self.wf(),
            self.searchable(),
        ensures
            topology_compact(shape),
            topology_nodes(shape).len() == self@.nodes.len() + self@.edges.len(),
            forall|i: int|
                0 <= i < topology_nodes(shape).len() ==> #[trigger] topology_nodes(shape)[i] == i,
            subdivided_view(shape, self.node_weights@, self.edge_weights@) == subdivide(self@),
    {
        let nodes: usize = self.node_weights.len();
        let edges: usize = self.edge_weights.len();
        let total: usize = nodes + edges;
        let mut shape = topology_new();
        let mut i: usize = 0;
        while i < total
            invariant
                i <= total <= u32::MAX,
                topology_compact(shape),
                topology_nodes(shape).len() == i,
                topology_edges(shape).len() == 0,
                forall|j: int| 0 <= j < i ==> #[trigger] topology_nodes(shape)[j] == j,
            decreases total - i,
        {
            topology_add_node(&mut shape, i);
            i = i + 1;
        }
        let mut k: usize = 0;
        while k < edges
            invariant
                self.wf(),
                nodes == self@.nodes.len(),
                edges == self@.edges.len(),
                total == nodes + edges,
                2 * edges <= u32::MAX,
                k <= edges,
                topology_compact(shape),
                topology_nodes(shape).len() == total,
                forall|j: int| 0 <= j < total ==> #[trigger] topology_nodes(shape)[j] == j,
                topology_edges(shape).len() == 2 * k,
                forall|j: int|
                    0 <= j < 2 * k ==> {
                        &&& (#[trigger] topology_edges(shape)[j]).0 == subdivide(self@).edges[j].from
                        &&& topology_edges(shape)[j].1 == subdivide(self@).edges[j].to
                    },
            decreases edges - k,
        {
            let (from, to) = self.edge_endpoints(k).unwrap();
            let ghost before = topology_edges(shape);
            topology_add_edge(&mut shape, from.0, nodes + k, 0);
            topology_add_edge(&mut shape, nodes + k, to.0, 0);
            proof {
                assert forall|j: int| 0 <= j < 2 * (k + 1) implies {
                    &&& (#[trigger] topology_edges(shape)[j]).0 == subdivide(self@).edges[j].from
                    &&& topology_edges(shape)[j].1 == subdivide(self@).edges[j].to
                } by {
                    if j < 2 * k {
                        assert(topology_edges(shape)[j] == before[j]);
                    }
                }
            }
            k = k + 1;
        }
        proof {
            let view = subdivided_view(shape, self.node_weights@, self.edge_weights@);
            assert(view.nodes =~= subdivide(self@).nodes);
            assert(view.edges =~= subdivide(self@).edges);
        }
        shape
    }

    /// Whether the two graphs are the same up to the numbering of their
    /// nodes and edges: whether they are isomorphic, where two nodes match
    /// when their tags are the same and two edges when their roles are.
    ///
    /// The search is petgraph's, run on the subdivisions of the two graphs,
    /// which have no parallel edges. It can take time that grows faster
    /// than any polynomial in the size of the graphs: it is meant for small
    /// graphs.
    pub fn structurally_equal(&self, other: &Self) -> (r: bool)
        requires
            self.wf(),
            other.wf(),
            self.searchable(),
            other.searchable(),
        ensures
            r == isomorphic(self@, other@),
    {
        proof {
            self.lemma_view_well_formed();
            other.lemma_view_well_formed();
            lemma_subdivide_simple(self@);
            lemma_subdivide_simple(other@);
            lemma_subdivide_isomorphic(self@, other@);
        }
        let a = self.subdivided();
        let b = other.subdivided();
        topology_isomorphic(
            &a,
            &self.node_weights,
            &self.edge_weights,
            &b,
            &other.node_weights,
            &other.edge_weights,
        )
    }
}

} // verus!
