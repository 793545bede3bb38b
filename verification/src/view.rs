//! Graphs as the contracts see them.

use vstd::prelude::*;

verus! {

/// An edge as the contracts see it: its endpoints by node index, and the
/// role the source plays at the target.
pub struct EdgeView<R> {
    pub from: int,
    pub to: int,
    pub role: R,
}

/// A graph as the contracts see it. The node with index `i` carries
/// `nodes[i]`; `edges` lists the edges in the order they were added.
pub struct GraphView<T, R> {
    pub nodes: Seq<T>,
    pub edges: Seq<EdgeView<R>>,
}

impl<T, R> GraphView<T, R> {
    /// The graph without nodes or edges.
    pub open spec fn empty() -> Self {
        GraphView { nodes: Seq::empty(), edges: Seq::empty() }
    }

    /// Every edge starts and ends at a node of the graph.
    pub open spec fn well_formed(self) -> bool {
        forall|k: int|
            0 <= k < self.edges.len() ==> {
                &&& 0 <= (#[trigger] self.edges[k]).from < self.nodes.len()
                &&& 0 <= self.edges[k].to < self.nodes.len()
            }
    }

    /// The graph with one more node, which gets the next free index.
    pub open spec fn with_node(self, tag: T) -> Self {
        GraphView { nodes: self.nodes.push(tag), edges: self.edges }
    }

    /// The graph with one more edge.
    pub open spec fn with_edge(self, from: int, to: int, role: R) -> Self {
        GraphView { nodes: self.nodes, edges: self.edges.push(EdgeView { from, to, role }) }
    }

    /// The edges that end at node `n`, oldest first.
    #[verifier::opaque]
    pub open spec fn in_edges(self, n: int) -> Seq<EdgeView<R>> {
        self.edges.filter(|e: EdgeView<R>| e.to == n)
    }

    /// The edges that start at node `n`, oldest first.
    #[verifier::opaque]
    pub open spec fn out_edges(self, n: int) -> Seq<EdgeView<R>> {
        self.edges.filter(|e: EdgeView<R>| e.from == n)
    }

    /// The graph is no multigraph: no edge joins a node to itself, and no
    /// two edges share both their source and their target.
    pub open spec fn is_simple(self) -> bool {
        &&& forall|k: int| 0 <= k < self.edges.len() ==> (#[trigger] self.edges[k]).from != self.edges[k].to
        &&& forall|j: int, k: int|
            0 <= j < k < self.edges.len() ==> !({
                &&& (#[trigger] self.edges[j]).from == (#[trigger] self.edges[k]).from
                &&& self.edges[j].to == self.edges[k].to
            })
    }

    /// The same graph under new numbers: node `i` becomes node `node_map[i]`
    /// and edge `k` becomes edge `edge_map[k]`. `node_back` and `edge_back`
    /// are the inverse renumberings.
    pub open spec fn renumbered(
        self,
        node_map: Seq<int>,
        node_back: Seq<int>,
        edge_map: Seq<int>,
        edge_back: Seq<int>,
    ) -> Self {
        GraphView {
            nodes: Seq::new(self.nodes.len(), |j: int| self.nodes[node_back[j]]),
            edges: Seq::new(
                self.edges.len(),
                |l: int|
                    EdgeView {
                        from: node_map[self.edges[edge_back[l]].from],
                        to: node_map[self.edges[edge_back[l]].to],
                        role: self.edges[edge_back[l]].role,
                    },
            ),
        }
    }

    /// The graph with every tag and role forgotten: its bare shape.
    pub open spec fn shape(self) -> GraphView<(), ()> {
        GraphView {
            nodes: Seq::new(self.nodes.len(), |i: int| ()),
            edges: Seq::new(
                self.edges.len(),
                |k: int| EdgeView { from: self.edges[k].from, to: self.edges[k].to, role: () },
            ),
        }
    }

    /// Every edge leads from an older node to a younger one: a value is
    /// used only by operations that were added after it.
    pub open spec fn edges_forward(self) -> bool {
        forall|k: int|
            0 <= k < self.edges.len() ==> 0 <= (#[trigger] self.edges[k]).from < self.edges[k].to
                < self.nodes.len()
    }

    /// A new node changes the edges into no node.
    pub proof fn lemma_in_edges_with_node(self, tag: T, n: int)
        ensures
            self.with_node(tag).in_edges(n) == self.in_edges(n),
            self.with_node(tag).out_edges(n) == self.out_edges(n),
    {
        reveal(GraphView::in_edges);
        reveal(GraphView::out_edges);
    }

    /// A new edge is the youngest edge into its target and changes the
    /// edges into no other node.
    pub proof fn lemma_in_edges_with_edge(self, from: int, to: int, role: R, n: int)
        ensures
            self.with_edge(from, to, role).in_edges(n) == if to == n {
                self.in_edges(n).push(EdgeView { from, to, role })
            } else {
                self.in_edges(n)
            },
    {
        reveal(GraphView::in_edges);
        broadcast use Seq::lemma_filter_push;

    }

    /// A new edge is the youngest edge out of its source and changes the
    /// edges out of no other node.
    pub proof fn lemma_out_edges_with_edge(self, from: int, to: int, role: R, n: int)
        ensures
            self.with_edge(from, to, role).out_edges(n) == if from == n {
                self.out_edges(n).push(EdgeView { from, to, role })
            } else {
                self.out_edges(n)
            },
    {
        reveal(GraphView::out_edges);
        broadcast use Seq::lemma_filter_push;

    }

    /// The graph with one more node and an edge into it from `operand`.
    pub open spec fn with_unary(self, tag: T, operand: int, role: R) -> Self {
        self.with_node(tag).with_edge(operand, self.nodes.len() as int, role)
    }

    /// The graph with one more node and two edges into it, first the one
    /// from `left` and then the one from `right`.
    pub open spec fn with_binary(self, tag: T, left: int, right: int, left_role: R, right_role: R)
        -> Self {
        self.with_node(tag).with_edge(left, self.nodes.len() as int, left_role).with_edge(
            right,
            self.nodes.len() as int,
            right_role,
        )
    }

    /// The graph with a node for `tag` unless it already has one: a tag
    /// that is found again gets no second node.
    pub open spec fn with_node_once(self, tag: T) -> Self {
        if slot_of(self.nodes, tag) < self.nodes.len() {
            self
        } else {
            self.with_node(tag)
        }
    }

    /// The graph as it was when it had its first `k` edges.
    pub open spec fn until(self, k: int) -> Self {
        GraphView { nodes: self.nodes, edges: self.edges.take(k) }
    }

    /// The graph with its first `k + 1` edges is the graph with its first
    /// `k` edges and one more; with all its edges it is the graph itself.
    pub proof fn lemma_edges_until(self, k: int)
        requires
            0 <= k <= self.edges.len(),
        ensures
            k < self.edges.len() ==> self.until(k + 1) == self.until(k).with_edge(
                self.edges[k].from,
                self.edges[k].to,
                self.edges[k].role,
            ),
            k == self.edges.len() ==> self.until(k) == self,
            k == 0 ==> self.until(k) == (GraphView::<T, R> { nodes: self.nodes, edges: Seq::empty() }),
    {
        if k < self.edges.len() {
            assert(self.edges.take(k + 1) =~= self.edges.take(k).push(self.edges[k]));
        }
        if k == self.edges.len() {
            assert(self.edges.take(k) =~= self.edges);
        }
        if k == 0 {
            assert(self.edges.take(k) =~= Seq::empty());
        }
    }

    /// A graph without edges has no edge into or out of any node.
    pub proof fn lemma_no_edges(self, n: int)
        requires
            self.edges.len() == 0,
        ensures
            self.in_edges(n).len() == 0,
            self.out_edges(n).len() == 0,
    {
        reveal(GraphView::in_edges);
        reveal(GraphView::out_edges);
        lemma_filter_none(self.edges, |e: EdgeView<R>| e.to == n);
        lemma_filter_none(self.edges, |e: EdgeView<R>| e.from == n);
    }

    /// No edge of a well-formed graph touches an index that is not a node yet.
    pub proof fn lemma_no_edges_beyond(self, n: int)
        requires
            self.well_formed(),
            n >= self.nodes.len(),
        ensures
            self.in_edges(n) == Seq::<EdgeView<R>>::empty(),
            self.out_edges(n) == Seq::<EdgeView<R>>::empty(),
    {
        reveal(GraphView::in_edges);
        reveal(GraphView::out_edges);
        lemma_filter_none(self.edges, |e: EdgeView<R>| e.to == n);
        lemma_filter_none(self.edges, |e: EdgeView<R>| e.from == n);
        assert(self.in_edges(n) =~= Seq::<EdgeView<R>>::empty());
        assert(self.out_edges(n) =~= Seq::<EdgeView<R>>::empty());
    }

    /// What `with_unary` does to the edges into each node.
    pub proof fn lemma_with_unary(self, tag: T, operand: int, role: R)
        requires
            self.well_formed(),
            0 <= operand < self.nodes.len(),
        ensures
            self.with_unary(tag, operand, role).well_formed(),
            self.with_unary(tag, operand, role).in_edges(self.nodes.len() as int) == seq![
                EdgeView { from: operand, to: self.nodes.len() as int, role },
            ],
            forall|m: int|
                m != self.nodes.len() ==> #[trigger] self.with_unary(tag, operand, role).in_edges(m)
                    == self.in_edges(m),
            self.edges_forward() ==> self.with_unary(tag, operand, role).edges_forward(),
    {
        let n = self.nodes.len() as int;
        let g1 = self.with_node(tag);
        let g2 = g1.with_edge(operand, n, role);
        self.lemma_no_edges_beyond(n);
        self.lemma_in_edges_with_node(tag, n);
        g1.lemma_in_edges_with_edge(operand, n, role, n);
        assert(g2.in_edges(n) =~= seq![EdgeView { from: operand, to: n, role }]);
        assert forall|m: int| m != n implies #[trigger] g2.in_edges(m) == self.in_edges(m) by {
            self.lemma_in_edges_with_node(tag, m);
            g1.lemma_in_edges_with_edge(operand, n, role, m);
        }
    }

    /// What `with_binary` does to the edges into each node.
    pub proof fn lemma_with_binary(
        self,
        tag: T,
        left: int,
        right: int,
        left_role: R,
        right_role: R,
    )
        requires
            self.well_formed(),
            0 <= left < self.nodes.len(),
            0 <= right < self.nodes.len(),
        ensures
            self.with_binary(tag, left, right, left_role, right_role).well_formed(),
            self.with_binary(tag, left, right, left_role, right_role).in_edges(
                self.nodes.len() as int,
            ) == seq![
                EdgeView { from: left, to: self.nodes.len() as int, role: left_role },
                EdgeView { from: right, to: self.nodes.len() as int, role: right_role },
            ],
            forall|m: int|
                m != self.nodes.len() ==> #[trigger] self.with_binary(
                    tag,
                    left,
                    right,
                    left_role,
                    right_role,
                ).in_edges(m) == self.in_edges(m),
            self.edges_forward() ==> self.with_binary(
                tag,
                left,
                right,
                left_role,
                right_role,
            ).edges_forward(),
    {
        let n = self.nodes.len() as int;
        let g1 = self.with_node(tag);
        let g2 = g1.with_edge(left, n, left_role);
        let g3 = g2.with_edge(right, n, right_role);
        self.lemma_no_edges_beyond(n);
        self.lemma_in_edges_with_node(tag, n);
        g1.lemma_in_edges_with_edge(left, n, left_role, n);
        g2.lemma_in_edges_with_edge(right, n, right_role, n);
        assert(g3.in_edges(n) =~= seq![
            EdgeView { from: left, to: n, role: left_role },
            EdgeView { from: right, to: n, role: right_role },
        ]);
        assert forall|m: int| m != n implies #[trigger] g3.in_edges(m) == self.in_edges(m) by {
            self.lemma_in_edges_with_node(tag, m);
            g1.lemma_in_edges_with_edge(left, n, left_role, m);
            g2.lemma_in_edges_with_edge(right, n, right_role, m);
        }
    }
}

/// Filtering a sequence of which no element passes leaves nothing.
pub proof fn lemma_filter_none<A>(s: Seq<A>, pred: spec_fn(A) -> bool)
    requires
        forall|i: int| 0 <= i < s.len() ==> !pred(#[trigger] s[i]),
    ensures
        s.filter(pred).len() == 0,
    decreases s.len(),
{
    reveal(Seq::filter);
    if s.len() > 0 {
        lemma_filter_none(s.drop_last(), pred);
    }
}

/// Position `i` is the first that carries the tag, or is the number of
/// nodes if no node carries it.
pub open spec fn is_first_slot<T>(nodes: Seq<T>, tag: T, i: int) -> bool {
    &&& 0 <= i <= nodes.len()
    &&& i < nodes.len() ==> nodes[i] == tag
    &&& forall|j: int| 0 <= j < i ==> nodes[j] != tag
}

/// Where a tag is found among the nodes: the position of the first node
/// that carries it, or the number of nodes if none does.
pub open spec fn slot_of<T>(nodes: Seq<T>, tag: T) -> int {
    match nodes.index_of_first(tag) {
        Some(i) => i,
        None => nodes.len() as int,
    }
}

/// `slot_of` is the least position that carries the tag.
pub proof fn lemma_slot_of<T>(nodes: Seq<T>, tag: T)
    ensures
        is_first_slot(nodes, tag, slot_of(nodes, tag)),
{
    nodes.index_of_first_ensures(tag);
    if nodes.index_of_first(tag) is None {
        assert forall|j: int| 0 <= j < nodes.len() implies nodes[j] != tag by {
            if nodes[j] == tag {
                assert(nodes.contains(tag));
            }
        }
    }
}

/// A position that carries the tag, with none before it, is its slot.
pub proof fn lemma_slot_of_is<T>(nodes: Seq<T>, tag: T, i: int)
    requires
        is_first_slot(nodes, tag, i),
    ensures
        slot_of(nodes, tag) == i,
{
    lemma_slot_of(nodes, tag);
}

/// Adding a tag once more finds the node that the first addition gave,
/// and leaves the graph as the first addition left it.
pub proof fn lemma_with_node_once_again<T, R>(g: GraphView<T, R>, tag: T)
    ensures
        slot_of(g.with_node_once(tag).nodes, tag) == slot_of(g.nodes, tag),
        g.with_node_once(tag).with_node_once(tag) == g.with_node_once(tag),
{
    lemma_slot_of(g.nodes, tag);
    lemma_slot_of_is(g.with_node_once(tag).nodes, tag, slot_of(g.nodes, tag));
}

/// Two different tags, added one after the other, get two different nodes.
pub proof fn lemma_with_node_once_distinct<T, R>(g: GraphView<T, R>, first: T, second: T)
    requires
        first != second,
    ensures
        slot_of(g.nodes, first) != slot_of(g.with_node_once(first).nodes, second),
{
    lemma_slot_of(g.nodes, first);
    lemma_slot_of(g.with_node_once(first).nodes, second);
}

/// Every node of the graph has incoming edges that `ok` accepts for its tag.
pub open spec fn shaped_by<T, R>(g: GraphView<T, R>, ok: spec_fn(T, Seq<EdgeView<R>>) -> bool)
    -> bool {
    forall|n: int| 0 <= n < g.nodes.len() ==> ok(g.nodes[n], #[trigger] g.in_edges(n))
}

/// A new node whose tag asks for no incoming edge keeps the graph in shape.
pub proof fn lemma_shaped_with_node<T, R>(
    g: GraphView<T, R>,
    ok: spec_fn(T, Seq<EdgeView<R>>) -> bool,
    tag: T,
)
    requires
        g.well_formed(),
        shaped_by(g, ok),
        ok(tag, Seq::<EdgeView<R>>::empty()),
    ensures
        shaped_by(g.with_node(tag), ok),
        g.with_node(tag).well_formed(),
        g.edges_forward() ==> g.with_node(tag).edges_forward(),
{
    let after = g.with_node(tag);
    g.lemma_no_edges_beyond(g.nodes.len() as int);
    assert forall|n: int| 0 <= n < after.nodes.len() implies ok(
        after.nodes[n],
        #[trigger] after.in_edges(n),
    ) by {
        g.lemma_in_edges_with_node(tag, n);
        if n < g.nodes.len() {
            assert(ok(g.nodes[n], g.in_edges(n)));
        }
    }
}

/// A new edge keeps the graph in shape if its target's tag accepts it
/// after the edges that the target already has.
pub proof fn lemma_shaped_with_edge<T, R>(
    g: GraphView<T, R>,
    ok: spec_fn(T, Seq<EdgeView<R>>) -> bool,
    from: int,
    to: int,
    role: R,
)
    requires
        g.well_formed(),
        shaped_by(g, ok),
        0 <= from < g.nodes.len(),
        0 <= to < g.nodes.len(),
        ok(g.nodes[to], g.in_edges(to).push(EdgeView { from, to, role })),
    ensures
        shaped_by(g.with_edge(from, to, role), ok),
        g.with_edge(from, to, role).well_formed(),
        g.edges_forward() && from < to ==> g.with_edge(from, to, role).edges_forward(),
{
    let after = g.with_edge(from, to, role);
    assert forall|n: int| 0 <= n < after.nodes.len() implies ok(
        after.nodes[n],
        #[trigger] after.in_edges(n),
    ) by {
        g.lemma_in_edges_with_edge(from, to, role, n);
        assert(ok(g.nodes[n], g.in_edges(n)));
    }
}

} // verus!
