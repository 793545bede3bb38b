//! What it means for two operation graphs to be structurally equal.

use crate::view::{EdgeView, GraphView};
use vstd::prelude::*;

verus! {

/// `there` and `back` are permutations of `0..n`, each the inverse of the other.
pub open spec fn inverse_permutations(there: Seq<int>, back: Seq<int>, n: nat) -> bool {
    &&& there.len() == n
    &&& back.len() == n
    &&& forall|i: int| 0 <= i < n ==> 0 <= #[trigger] there[i] < n && back[there[i]] == i
    &&& forall|j: int| 0 <= j < n ==> 0 <= #[trigger] back[j] < n && there[back[j]] == j
}

/// The renumbering (`node_map`, `edge_map`) carries graph `a` onto graph `b`:
/// tags and roles are kept, and each edge still joins the images of its
/// endpoints.
pub open spec fn is_isomorphism<T, R>(
    a: GraphView<T, R>,
    b: GraphView<T, R>,
    node_map: Seq<int>,
    node_back: Seq<int>,
    edge_map: Seq<int>,
    edge_back: Seq<int>,
) -> bool {
    &&& a.nodes.len() == b.nodes.len()
    &&& a.edges.len() == b.edges.len()
    &&& inverse_permutations(node_map, node_back, a.nodes.len())
    &&& inverse_permutations(edge_map, edge_back, a.edges.len())
    &&& forall|i: int| 0 <= i < a.nodes.len() ==> b.nodes[#[trigger] node_map[i]] == a.nodes[i]
    &&& forall|k: int|
        0 <= k < a.edges.len() ==> b.edges[#[trigger] edge_map[k]] == (EdgeView {
            from: node_map[a.edges[k].from],
            to: node_map[a.edges[k].to],
            role: a.edges[k].role,
        })
}

/// Two graphs are isomorphic when some renumbering of nodes and edges
/// carries one onto the other.
pub open spec fn isomorphic<T, R>(a: GraphView<T, R>, b: GraphView<T, R>) -> bool {
    exists|node_map: Seq<int>, node_back: Seq<int>, edge_map: Seq<int>, edge_back: Seq<int>|
        is_isomorphism(a, b, node_map, node_back, edge_map, edge_back)
}

/// The identity renumbering of `0..n`.
pub open spec fn identity_map(n: nat) -> Seq<int> {
    Seq::new(n, |i: int| i)
}

/// Every well-formed graph is isomorphic to itself.
pub proof fn lemma_isomorphic_reflexive<T, R>(a: GraphView<T, R>)
    requires
        a.well_formed(),
    ensures
        isomorphic(a, a),
{
    let nodes = identity_map(a.nodes.len());
    let edges = identity_map(a.edges.len());
    assert(is_isomorphism(a, a, nodes, nodes, edges, edges));
}

/// If `a` is isomorphic to `b`, then `b` is isomorphic to `a`.
pub proof fn lemma_isomorphic_symmetric<T, R>(a: GraphView<T, R>, b: GraphView<T, R>)
    requires
        a.well_formed(),
        b.well_formed(),
        isomorphic(a, b),
    ensures
        isomorphic(b, a),
{
    let (node_map, node_back, edge_map, edge_back) = choose|
        node_map: Seq<int>,
        node_back: Seq<int>,
        edge_map: Seq<int>,
        edge_back: Seq<int>,
    | is_isomorphism(a, b, node_map, node_back, edge_map, edge_back);
    assert forall|j: int| 0 <= j < b.nodes.len() implies a.nodes[#[trigger] node_back[j]]
        == b.nodes[j] by {
        assert(node_map[node_back[j]] == j);
    }
    assert forall|l: int| 0 <= l < b.edges.len() implies a.edges[#[trigger] edge_back[l]] == (
    EdgeView {
        from: node_back[b.edges[l].from],
        to: node_back[b.edges[l].to],
        role: b.edges[l].role,
    }) by {
        let k = edge_back[l];
        assert(edge_map[k] == l);
        assert(node_back[node_map[a.edges[k].from]] == a.edges[k].from);
        assert(node_back[node_map[a.edges[k].to]] == a.edges[k].to);
    }
    assert(is_isomorphism(b, a, node_back, node_map, edge_back, edge_map));
}

/// If `a` is isomorphic to `b` and `b` to `c`, then `a` is isomorphic to `c`.
pub proof fn lemma_isomorphic_transitive<T, R>(
    a: GraphView<T, R>,
    b: GraphView<T, R>,
    c: GraphView<T, R>,
)
    requires
        a.well_formed(),
        b.well_formed(),
        isomorphic(a, b),
        isomorphic(b, c),
    ensures
        isomorphic(a, c),
{
    let (n1, n1b, e1, e1b) = choose|
        node_map: Seq<int>,
        node_back: Seq<int>,
        edge_map: Seq<int>,
        edge_back: Seq<int>,
    | is_isomorphism(a, b, node_map, node_back, edge_map, edge_back);
    let (n2, n2b, e2, e2b) = choose|
        node_map: Seq<int>,
        node_back: Seq<int>,
        edge_map: Seq<int>,
        edge_back: Seq<int>,
    | is_isomorphism(b, c, node_map, node_back, edge_map, edge_back);
    let n = a.nodes.len();
    let m = a.edges.len();
    let node_map = Seq::new(n, |i: int| n2[n1[i]]);
    let node_back = Seq::new(n, |j: int| n1b[n2b[j]]);
    let edge_map = Seq::new(m, |k: int| e2[e1[k]]);
    let edge_back = Seq::new(m, |l: int| e1b[e2b[l]]);
    assert forall|i: int| 0 <= i < n implies 0 <= #[trigger] node_map[i] < n
        && node_back[node_map[i]] == i by {
        assert(0 <= n1[i] < n && n1b[n1[i]] == i);
        assert(0 <= n2[n1[i]] < n && n2b[n2[n1[i]]] == n1[i]);
    }
    assert forall|j: int| 0 <= j < n implies 0 <= #[trigger] node_back[j] < n
        && node_map[node_back[j]] == j by {
        assert(0 <= n2b[j] < n && n2[n2b[j]] == j);
        assert(0 <= n1b[n2b[j]] < n && n1[n1b[n2b[j]]] == n2b[j]);
    }
    assert forall|k: int| 0 <= k < m implies 0 <= #[trigger] edge_map[k] < m
        && edge_back[edge_map[k]] == k by {
        assert(0 <= e1[k] < m && e1b[e1[k]] == k);
        assert(0 <= e2[e1[k]] < m && e2b[e2[e1[k]]] == e1[k]);
    }
    assert forall|l: int| 0 <= l < m implies 0 <= #[trigger] edge_back[l] < m
        && edge_map[edge_back[l]] == l by {
        assert(0 <= e2b[l] < m && e2[e2b[l]] == l);
        assert(0 <= e1b[e2b[l]] < m && e1[e1b[e2b[l]]] == e2b[l]);
    }
    assert forall|i: int| 0 <= i < n implies c.nodes[#[trigger] node_map[i]] == a.nodes[i] by {
        assert(b.nodes[n1[i]] == a.nodes[i]);
        assert(c.nodes[n2[n1[i]]] == b.nodes[n1[i]]);
    }
    assert forall|k: int| 0 <= k < m implies c.edges[#[trigger] edge_map[k]] == (EdgeView {
        from: node_map[a.edges[k].from],
        to: node_map[a.edges[k].to],
        role: a.edges[k].role,
    }) by {
        let mid = e1[k];
        assert(0 <= mid < m);
        assert(b.edges[mid] == (EdgeView {
            from: n1[a.edges[k].from],
            to: n1[a.edges[k].to],
            role: a.edges[k].role,
        }));
        assert(c.edges[e2[mid]] == (EdgeView {
            from: n2[b.edges[mid].from],
            to: n2[b.edges[mid].to],
            role: b.edges[mid].role,
        }));
    }
    assert(is_isomorphism(a, c, node_map, node_back, edge_map, edge_back));
}

/// Numbering the nodes and edges of a graph differently gives an isomorphic
/// graph: the order in which a program was put together does not matter.
pub proof fn lemma_renumbered_isomorphic<T, R>(
    a: GraphView<T, R>,
    node_map: Seq<int>,
    node_back: Seq<int>,
    edge_map: Seq<int>,
    edge_back: Seq<int>,
)
    requires
        a.well_formed(),
        inverse_permutations(node_map, node_back, a.nodes.len()),
        inverse_permutations(edge_map, edge_back, a.edges.len()),
    ensures
        isomorphic(a, a.renumbered(node_map, node_back, edge_map, edge_back)),
        a.renumbered(node_map, node_back, edge_map, edge_back).well_formed(),
{
    let b = a.renumbered(node_map, node_back, edge_map, edge_back);
    assert forall|i: int| 0 <= i < a.nodes.len() implies b.nodes[#[trigger] node_map[i]]
        == a.nodes[i] by {
        assert(node_back[node_map[i]] == i);
    }
    assert forall|k: int| 0 <= k < a.edges.len() implies b.edges[#[trigger] edge_map[k]] == (
    EdgeView {
        from: node_map[a.edges[k].from],
        to: node_map[a.edges[k].to],
        role: a.edges[k].role,
    }) by {
        assert(edge_back[edge_map[k]] == k);
    }
    assert(is_isomorphism(a, b, node_map, node_back, edge_map, edge_back));
    assert forall|l: int| 0 <= l < b.edges.len() implies 0 <= (#[trigger] b.edges[l]).from
        < b.nodes.len() && 0 <= b.edges[l].to < b.nodes.len() by {
        let k = edge_back[l];
        assert(0 <= k < a.edges.len());
        assert(0 <= a.edges[k].from < a.nodes.len());
        assert(0 <= a.edges[k].to < a.nodes.len());
    }
}

} // verus!
