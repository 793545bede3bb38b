//! The petgraph collection that stores the shape of an operation graph.
//!
//! The functions in this file are not verified. Each calls one function of
//! petgraph and states what petgraph's documentation and source say of it,
//! over the three names `topology_nodes`, `topology_edges` and
//! `topology_compact` for what a graph holds.

use crate::graph::{edges_match, payloads_match, ViewEq};
use crate::subdivision::Subdivided;
use crate::isomorphism::isomorphic;
use crate::view::{EdgeView, GraphView};
use petgraph::algo::is_isomorphic_matching;
use petgraph::graph::{EdgeIndex, Graph, NodeIndex};
use petgraph::stable_graph::StableGraph;
use petgraph::Directed;
use vstd::prelude::*;

verus! {

/// `petgraph::stable_graph::StableGraph`, whose contents are seen only
/// through the names below.
#[verifier::external_type_specification]
#[verifier::external_body]
#[verifier::reject_recursive_types(N)]
#[verifier::reject_recursive_types(E)]
#[verifier::reject_recursive_types(Ty)]
#[verifier::reject_recursive_types(Ix)]
pub struct ExStableGraph<N, E, Ty, Ix>(StableGraph<N, E, Ty, Ix>);

/// `petgraph::Directed`, the marker of graphs whose edges have a direction.
#[verifier::external_type_specification]
#[verifier::external_body]
pub struct ExDirected(Directed);

/// The weights of the graph's nodes, by increasing node index.
pub uninterp spec fn topology_nodes(g: StableGraph<usize, usize>) -> Seq<usize>;

/// The graph's edges by increasing edge index, each as its source's
/// position in `topology_nodes`, its target's position, and its weight.
pub uninterp spec fn topology_edges(g: StableGraph<usize, usize>) -> Seq<(int, int, usize)>;

/// No node or edge was ever removed from the graph: the indices in use are
/// exactly those below the two counts, so that a position in
/// `topology_nodes` or `topology_edges` is the index itself.
pub uninterp spec fn topology_compact(g: StableGraph<usize, usize>) -> bool;

/// What a weighted topology stands for: node `i` carries the payload that
/// its weight selects from `nodes`, and edge `k` the role that its weight
/// selects from `roles`.
pub open spec fn weighted_view<N: View, E: View>(
    g: StableGraph<usize, usize>,
    nodes: Seq<N>,
    roles: Seq<E>,
) -> GraphView<N::V, E::V> {
    GraphView {
        nodes: Seq::new(topology_nodes(g).len(), |i: int| nodes[topology_nodes(g)[i] as int]@),
        edges: Seq::new(
            topology_edges(g).len(),
            |k: int|
                EdgeView {
                    from: topology_edges(g)[k].0,
                    to: topology_edges(g)[k].1,
                    role: roles[topology_edges(g)[k].2 as int]@,
                },
        ),
    }
}

/// The payload that a weight selects from the tags and roles of a graph:
/// the tag at that position, or, past the tags, the role at the position
/// that is left.
pub open spec fn payload_at<N: View, E: View>(nodes: Seq<N>, roles: Seq<E>, weight: int)
    -> Subdivided<N::V, E::V> {
    if weight < nodes.len() {
        Subdivided::Node(nodes[weight]@)
    } else {
        Subdivided::Edge(roles[weight - nodes.len()]@)
    }
}

/// What the topology of a subdivided graph stands for: node `i` carries
/// the payload that its weight selects, and the edges carry nothing.
pub open spec fn subdivided_view<N: View, E: View>(
    g: StableGraph<usize, usize>,
    nodes: Seq<N>,
    roles: Seq<E>,
) -> GraphView<Subdivided<N::V, E::V>, ()> {
    GraphView {
        nodes: Seq::new(
            topology_nodes(g).len(),
            |i: int| payload_at(nodes, roles, topology_nodes(g)[i] as int),
        ),
        edges: Seq::new(
            topology_edges(g).len(),
            |k: int| EdgeView { from: topology_edges(g)[k].0, to: topology_edges(g)[k].1, role: () },
        ),
    }
}

/// Every node weight of the topology selects one of `count` payloads.
pub open spec fn weights_below(g: StableGraph<usize, usize>, count: nat) -> bool {
    forall|i: int| 0 <= i < topology_nodes(g).len() ==> #[trigger] topology_nodes(g)[i] < count
}

/// `StableGraph::new`: a graph without nodes, edges or vacancies.
#[verifier::external_body]
pub(crate) fn topology_new() -> (g: StableGraph<usize, usize>)
    ensures
        topology_nodes(g) == Seq::<usize>::empty(),
        topology_edges(g) == Seq::<(int, int, usize)>::empty(),
        topology_compact(g),
{
    StableGraph::new()
}

/// `StableGraph::add_node`. With no vacancy to fill, the node is appended
/// and its index is the former node count. The call panics once the count
/// has reached `u32::MAX`, so that is ruled out.
#[verifier::external_body]
pub(crate) fn topology_add_node(g: &mut StableGraph<usize, usize>, weight: usize) -> (index: usize)
    requires
        topology_compact(*old(g)),
        topology_nodes(*old(g)).len() < u32::MAX,
    ensures
        topology_nodes(*final(g)) == topology_nodes(*old(g)).push(weight),
        topology_edges(*final(g)) == topology_edges(*old(g)),
        topology_compact(*final(g)),
        index == topology_nodes(*old(g)).len(),
{
    g.add_node(weight).index()
}

/// `StableGraph::add_edge`. With no vacancy to fill, the edge is appended
/// and its index is the former edge count. The call panics if an endpoint
/// is no node of the graph or the edge count has reached `u32::MAX`, so
/// both are ruled out.
#[verifier::external_body]
pub(crate) fn topology_add_edge(
    g: &mut StableGraph<usize, usize>,
    from: usize,
    to: usize,
    weight: usize,
) -> (index: usize)
    requires
        topology_compact(*old(g)),
        from < topology_nodes(*old(g)).len(),
        to < topology_nodes(*old(g)).len(),
        topology_edges(*old(g)).len() < u32::MAX,
    ensures
        topology_nodes(*final(g)) == topology_nodes(*old(g)),
        topology_edges(*final(g)) == topology_edges(*old(g)).push((from as int, to as int, weight)),
        topology_compact(*final(g)),
        index == topology_edges(*old(g)).len(),
{
    g.add_edge(NodeIndex::new(from), NodeIndex::new(to), weight).index()
}

/// `StableGraph::edge_endpoints`: the source and target of an edge that
/// the graph holds.
#[verifier::external_body]
pub(crate) fn topology_edge_endpoints(g: &StableGraph<usize, usize>, edge: usize) -> (r: Option<
    (usize, usize),
>)
    requires
        topology_compact(*g),
        edge < topology_edges(*g).len(),
    ensures
        r == Some(
            (
                topology_edges(*g)[edge as int].0 as usize,
                topology_edges(*g)[edge as int].1 as usize,
            ),
        ),
{
    g.edge_endpoints(EdgeIndex::new(edge)).map(|(a, b)| (a.index(), b.index()))
}

/// `StableGraph::map` with closures that copy each weight: a graph with
/// the same structure, indices and weights as `g`.
#[verifier::external_body]
pub(crate) fn topology_map(g: &StableGraph<usize, usize>) -> (r: StableGraph<usize, usize>)
    ensures
        topology_nodes(r) == topology_nodes(*g),
        topology_edges(r) == topology_edges(*g),
        topology_compact(r) == topology_compact(*g),
{
    g.map(|_, n| *n, |_, e| *e)
}

/// `Graph::from` a `StableGraph`, and `StableGraph::from` the `Graph` it
/// gives: the first renumbers nodes and edges into intervals without
/// holes, keeping their order, and the second keeps every index. A graph
/// that had no vacancies keeps all its indices.
#[verifier::external_body]
pub(crate) fn topology_compacted(g: StableGraph<usize, usize>) -> (r: StableGraph<usize, usize>)
    requires
        topology_compact(g),
    ensures
        topology_nodes(r) == topology_nodes(g),
        topology_edges(r) == topology_edges(g),
        topology_compact(r),
{
    StableGraph::from(Graph::from(g))
}

/// `petgraph::algo::is_isomorphic_matching` on the two topologies, each
/// handed over through `Graph::from`, where two nodes match when their
/// weights select the same payload and any two edges match. petgraph
/// documents the answer, whether the graphs are isomorphic, for graphs
/// that are not multigraphs; of a graph with a loop or with parallel edges
/// nothing is claimed.
#[verifier::external_body]
pub(crate) fn topology_isomorphic<N: ViewEq, E: ViewEq>(
    a: &StableGraph<usize, usize>,
    a_nodes: &Vec<N>,
    a_roles: &Vec<E>,
    b: &StableGraph<usize, usize>,
    b_nodes: &Vec<N>,
    b_roles: &Vec<E>,
) -> (r: bool)
    requires
        topology_compact(*a),
        topology_compact(*b),
        weights_below(*a, a_nodes@.len() + a_roles@.len()),
        weights_below(*b, b_nodes@.len() + b_roles@.len()),
    ensures
        subdivided_view(*a, a_nodes@, a_roles@).is_simple() && subdivided_view(
            *b,
            b_nodes@,
            b_roles@,
        ).is_simple() ==> r == isomorphic(
            subdivided_view(*a, a_nodes@, a_roles@),
            subdivided_view(*b, b_nodes@, b_roles@),
        ),
{
    is_isomorphic_matching(
        &Graph::from(a.clone()),
        &Graph::from(b.clone()),
        |x, y| payloads_match(a_nodes, a_roles, *x, b_nodes, b_roles, *y),
        |x, y| edges_match(x, y),
    )
}

} // verus!
