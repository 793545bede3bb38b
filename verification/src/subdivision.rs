//! Graphs with parallel edges, made simple.
//!
//! Subdividing a graph puts a node on every edge: the edge from `a` to `b`
//! becomes a node that carries the edge's role, with an edge from `a` to it
//! and an edge from it to `b`. The result has neither loops nor parallel
//! edges, and two graphs are isomorphic exactly when their subdivisions are.

use crate::isomorphism::{inverse_permutations, is_isomorphism, isomorphic};
use crate::view::{EdgeView, GraphView};
use vstd::prelude::*;

verus! {

/// The tag of a node of a subdivided graph: the tag of a node of the
/// graph it came from, or the role of one of that graph's edges.
pub enum Subdivided<T, R> {
    Node(T),
    Edge(R),
}

/// The subdivision of a graph with `n` nodes: its nodes come first, under
/// their indices; edge `k` becomes node `n + k`, entered by edge `2 * k`
/// from the source of `k` and left by edge `2 * k + 1` to the target of `k`.
pub open spec fn subdivide<T, R>(g: GraphView<T, R>) -> GraphView<Subdivided<T, R>, ()> {
    GraphView {
        nodes: Seq::new(
            g.nodes.len() + g.edges.len(),
            |i: int|
                if i < g.nodes.len() {
                    Subdivided::Node(g.nodes[i])
                } else {
                    Subdivided::Edge(g.edges[i - g.nodes.len()].role)
                },
        ),
        edges: Seq::new(
            2 * g.edges.len(),
            |j: int|
                if j % 2 == 0 {
                    EdgeView { from: g.edges[j / 2].from, to: g.nodes.len() + j / 2, role: () }
                } else {
                    EdgeView { from: g.nodes.len() + j / 2, to: g.edges[j / 2].to, role: () }
                },
        ),
    }
}

/// The subdivision of a well-formed graph is well-formed and has neither
/// loops nor parallel edges.
pub proof fn lemma_subdivide_simple<T, R>(g: GraphView<T, R>)
    requires
        g.well_formed(),
    ensures
        subdivide(g).well_formed(),
        subdivide(g).is_simple(),
{
    let s = subdivide(g);
    let n = g.nodes.len() as int;
    assert forall|j: int| 0 <= j < s.edges.len() implies 0 <= (#[trigger] s.edges[j]).from
        < s.nodes.len() && 0 <= s.edges[j].to < s.nodes.len() && s.edges[j].from
        != s.edges[j].to by {
        let k = j / 2;
        assert(0 <= k < g.edges.len());
        assert(0 <= g.edges[k].from < n && 0 <= g.edges[k].to < n);
    }
    assert forall|i: int, j: int| 0 <= i < j < s.edges.len() implies !((#[trigger] s.edges[i]).from
        == (#[trigger] s.edges[j]).from && s.edges[i].to == s.edges[j].to) by {
        let ki = i / 2;
        let kj = j / 2;
        assert(0 <= ki < g.edges.len() && 0 <= kj < g.edges.len());
        assert(0 <= g.edges[ki].from < n && 0 <= g.edges[ki].to < n);
        assert(0 <= g.edges[kj].from < n && 0 <= g.edges[kj].to < n);
    }
}

/// The renumbering of a subdivision that a renumbering of the graph gives:
/// nodes move as they did, and each edge-node moves as its edge did.
pub open spec fn lift_nodes(nodes: Seq<int>, edges: Seq<int>) -> Seq<int> {
    Seq::new(
        nodes.len() + edges.len(),
        |i: int|
            if i < nodes.len() {
                nodes[i]
            } else {
                nodes.len() + edges[i - nodes.len()]
            },
    )
}

/// The renumbering of a subdivision's edges that a renumbering of the
/// graph's edges gives: both halves of an edge move as the edge did.
pub open spec fn lift_edges(edges: Seq<int>) -> Seq<int> {
    Seq::new(2 * edges.len(), |j: int| 2 * edges[j / 2] + j % 2)
}

/// Lifting a pair of inverse renumberings gives a pair of inverse renumberings.
proof fn lemma_lift_inverse(
    node_map: Seq<int>,
    node_back: Seq<int>,
    edge_map: Seq<int>,
    edge_back: Seq<int>,
    n: nat,
    m: nat,
)
    requires
        inverse_permutations(node_map, node_back, n),
        inverse_permutations(edge_map, edge_back, m),
    ensures
        inverse_permutations(
            lift_nodes(node_map, edge_map),
            lift_nodes(node_back, edge_back),
            n + m,
        ),
        inverse_permutations(lift_edges(edge_map), lift_edges(edge_back), 2 * m),
{
    let there = lift_nodes(node_map, edge_map);
    let back = lift_nodes(node_back, edge_back);
    assert forall|i: int| 0 <= i < n + m implies 0 <= #[trigger] there[i] < n + m
        && back[there[i]] == i by {
        if i < n {
            assert(0 <= node_map[i] < n && node_back[node_map[i]] == i);
        } else {
            assert(0 <= edge_map[i - n] < m && edge_back[edge_map[i - n]] == i - n);
        }
    }
    assert forall|i: int| 0 <= i < n + m implies 0 <= #[trigger] back[i] < n + m
        && there[back[i]] == i by {
        if i < n {
            assert(0 <= node_back[i] < n && node_map[node_back[i]] == i);
        } else {
            assert(0 <= edge_back[i - n] < m && edge_map[edge_back[i - n]] == i - n);
        }
    }
    let ethere = lift_edges(edge_map);
    let eback = lift_edges(edge_back);
    assert forall|j: int| 0 <= j < 2 * m implies 0 <= #[trigger] ethere[j] < 2 * m
        && eback[ethere[j]] == j by {
        let k = j / 2;
        assert(0 <= edge_map[k] < m && edge_back[edge_map[k]] == k);
        assert(ethere[j] / 2 == edge_map[k]);
        assert(ethere[j] % 2 == j % 2);
    }
    assert forall|j: int| 0 <= j < 2 * m implies 0 <= #[trigger] eback[j] < 2 * m
        && ethere[eback[j]] == j by {
        let k = j / 2;
        assert(0 <= edge_back[k] < m && edge_map[edge_back[k]] == k);
        assert(eback[j] / 2 == edge_back[k]);
        assert(eback[j] % 2 == j % 2);
    }
}

/// If two graphs are isomorphic, so are their subdivisions.
pub proof fn lemma_subdivide_forward<T, R>(a: GraphView<T, R>, b: GraphView<T, R>)
    requires
        a.well_formed(),
        b.well_formed(),
        isomorphic(a, b),
    ensures
        isomorphic(subdivide(a), subdivide(b)),
{
    let (node_map, node_back, edge_map, edge_back) = choose|
        node_map: Seq<int>,
        node_back: Seq<int>,
        edge_map: Seq<int>,
        edge_back: Seq<int>,
    | is_isomorphism(a, b, node_map, node_back, edge_map, edge_back);
    let n = a.nodes.len();
    let m = a.edges.len();
    let sa = subdivide(a);
    let sb = subdivide(b);
    let there = lift_nodes(node_map, edge_map);
    let back = lift_nodes(node_back, edge_back);
    let ethere = lift_edges(edge_map);
    let eback = lift_edges(edge_back);
    lemma_lift_inverse(node_map, node_back, edge_map, edge_back, n, m);
    assert forall|i: int| 0 <= i < sa.nodes.len() implies sb.nodes[#[trigger] there[i]]
        == sa.nodes[i] by {
        if i < n {
            assert(0 <= node_map[i] < n);
            assert(b.nodes[node_map[i]] == a.nodes[i]);
        } else {
            let k = i - n;
            assert(0 <= edge_map[k] < m);
            assert(b.edges[edge_map[k]].role == a.edges[k].role);
        }
    }
    assert forall|j: int| 0 <= j < sa.edges.len() implies sb.edges[#[trigger] ethere[j]] == (
    EdgeView { from: there[sa.edges[j].from], to: there[sa.edges[j].to], role: sa.edges[j].role })
    by {
        let k = j / 2;
        assert(0 <= k < m);
        assert(0 <= edge_map[k] < m);
        assert(0 <= a.edges[k].from < n && 0 <= a.edges[k].to < n);
        assert(ethere[j] / 2 == edge_map[k]);
        assert(ethere[j] % 2 == j % 2);
        assert(b.edges[edge_map[k]] == (EdgeView {
            from: node_map[a.edges[k].from],
            to: node_map[a.edges[k].to],
            role: a.edges[k].role,
        }));
    }
    assert(is_isomorphism(sa, sb, there, back, ethere, eback));
}

/// If the subdivisions of two graphs are isomorphic, so are the graphs.
pub proof fn lemma_subdivide_backward<T, R>(a: GraphView<T, R>, b: GraphView<T, R>)
    requires
        a.well_formed(),
        b.well_formed(),
        isomorphic(subdivide(a), subdivide(b)),
    ensures
        isomorphic(a, b),
{
    let sa = subdivide(a);
    let sb = subdivide(b);
    let (there, back, ethere, eback) = choose|
        node_map: Seq<int>,
        node_back: Seq<int>,
        edge_map: Seq<int>,
        edge_back: Seq<int>,
    | is_isomorphism(sa, sb, node_map, node_back, edge_map, edge_back);
    let n = a.nodes.len() as int;
    let m = a.edges.len() as int;
    assert(sa.edges.len() == 2 * m && sb.edges.len() == 2 * b.edges.len());
    assert(sa.nodes.len() == n + m && sb.nodes.len() == b.nodes.len() + b.edges.len());
    assert(b.edges.len() == m);
    assert(b.nodes.len() == n);

    // Nodes go to nodes and edge-nodes to edge-nodes, both ways.
    assert forall|i: int| 0 <= i < n + m implies (i < n <==> #[trigger] there[i] < n) by {
        assert(0 <= there[i] < n + m);
        assert(sb.nodes[there[i]] == sa.nodes[i]);
    }
    assert forall|j: int| 0 <= j < n + m implies (j < n <==> #[trigger] back[j] < n) by {
        assert(0 <= back[j] < n + m && there[back[j]] == j);
        assert(sb.nodes[there[back[j]]] == sa.nodes[back[j]]);
    }

    let node_map = Seq::new(n as nat, |i: int| there[i]);
    let node_back = Seq::new(n as nat, |j: int| back[j]);
    let edge_map = Seq::new(m as nat, |k: int| there[n + k] - n);
    let edge_back = Seq::new(m as nat, |l: int| back[n + l] - n);

    assert forall|i: int| 0 <= i < n implies 0 <= #[trigger] node_map[i] < n
        && node_back[node_map[i]] == i by {
        assert(0 <= there[i] < n + m && back[there[i]] == i);
    }
    assert forall|j: int| 0 <= j < n implies 0 <= #[trigger] node_back[j] < n
        && node_map[node_back[j]] == j by {
        assert(0 <= back[j] < n + m && there[back[j]] == j);
    }
    assert forall|k: int| 0 <= k < m implies 0 <= #[trigger] edge_map[k] < m
        && edge_back[edge_map[k]] == k by {
        assert(0 <= there[n + k] < n + m && back[there[n + k]] == n + k);
    }
    assert forall|l: int| 0 <= l < m implies 0 <= #[trigger] edge_back[l] < m
        && edge_map[edge_back[l]] == l by {
        assert(0 <= back[n + l] < n + m && there[back[n + l]] == n + l);
    }
    assert forall|i: int| 0 <= i < n implies b.nodes[#[trigger] node_map[i]] == a.nodes[i] by {
        assert(0 <= there[i] < n);
        assert(sb.nodes[there[i]] == sa.nodes[i]);
    }
    assert forall|k: int| 0 <= k < m implies b.edges[#[trigger] edge_map[k]] == (EdgeView {
        from: node_map[a.edges[k].from],
        to: node_map[a.edges[k].to],
        role: a.edges[k].role,
    }) by {
        let l = edge_map[k];
        assert(0 <= there[n + k] < n + m && n <= there[n + k]);
        assert(0 <= l < m);
        assert(0 <= a.edges[k].from < n && 0 <= a.edges[k].to < n);
        assert(0 <= b.edges[l].from < n && 0 <= b.edges[l].to < n);
        assert(sb.nodes[there[n + k]] == sa.nodes[n + k]);
        assert(b.edges[l].role == a.edges[k].role);

        let into = ethere[2 * k];
        assert(0 <= into < 2 * m);
        assert(sa.edges[2 * k].from == a.edges[k].from && sa.edges[2 * k].to == n + k);
        assert(sb.edges[into] == (EdgeView {
            from: there[sa.edges[2 * k].from],
            to: there[sa.edges[2 * k].to],
            role: sa.edges[2 * k].role,
        }));
        assert(0 <= into / 2 < m);
        assert(0 <= b.edges[into / 2].to < n);
        assert(into % 2 == 0);
        assert(into / 2 == l);
        assert(b.edges[l].from == there[a.edges[k].from]);

        let out = ethere[2 * k + 1];
        assert(0 <= out < 2 * m);
        assert(sa.edges[2 * k + 1].from == n + k && sa.edges[2 * k + 1].to == a.edges[k].to);
        assert(sb.edges[out] == (EdgeView {
            from: there[sa.edges[2 * k + 1].from],
            to: there[sa.edges[2 * k + 1].to],
            role: sa.edges[2 * k + 1].role,
        }));
        assert(0 <= out / 2 < m);
        assert(0 <= b.edges[out / 2].from < n);
        assert(out % 2 == 1);
        assert(out / 2 == l);
        assert(b.edges[l].to == there[a.edges[k].to]);
    }
    assert(is_isomorphism(a, b, node_map, node_back, edge_map, edge_back));
}

/// Two well-formed graphs are isomorphic exactly when their subdivisions are.
pub proof fn lemma_subdivide_isomorphic<T, R>(a: GraphView<T, R>, b: GraphView<T, R>)
    requires
        a.well_formed(),
        b.well_formed(),
    ensures
        isomorphic(a, b) == isomorphic(subdivide(a), subdivide(b)),
{
    if isomorphic(a, b) {
        lemma_subdivide_forward(a, b);
    }
    if isomorphic(subdivide(a), subdivide(b)) {
        lemma_subdivide_backward(a, b);
    }
}

} // verus!
