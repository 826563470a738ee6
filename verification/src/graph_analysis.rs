//! Structural facts about node graphs: which inputs are connected, and
//! whether the connections form a cycle that some node can reach.
use vstd::prelude::*;
use crate::node_graph::{NodeGraph, NodeId, PortId};

verus! {

/// Some connection ends at input `port` of node `node`.
pub open spec fn input_connected(g: NodeGraph, node: NodeId, port: PortId) -> bool {
    exists|k: int|
        #![trigger g.connections@[k]]
        0 <= k < g.connections@.len() && g.connections@[k].to_node == node
            && g.connections@[k].to_port == port
}

/// Whether some connection ends at input `port` of node `node`.
pub fn is_input_connected(g: &NodeGraph, node: NodeId, port: PortId) -> (b: bool)
    ensures
        b == input_connected(*g, node, port),
{
    let mut k: usize = 0;
    while k < g.connections.len()
        invariant
            k <= g.connections@.len(),
            forall|j: int|
                0 <= j < k ==> !(g.connections@[j].to_node == node && g.connections@[j].to_port
                    == port),
        decreases g.connections@.len() - k,
    {
        let c = g.connections[k];
        if c.to_node.0 == node.0 && c.to_port.0 == port.0 {
            return true;
        }
        k = k + 1;
    }
    false
}

/// A connection leads from node `a` to node `b`.
pub open spec fn edge(g: NodeGraph, a: u64, b: u64) -> bool {
    exists|k: int|
        #![trigger g.connections@[k]]
        0 <= k < g.connections@.len() && g.connections@[k].from_node.0 == a
            && g.connections@[k].to_node.0 == b
}

/// Step `i` of `p` follows a connection.
pub open spec fn step(g: NodeGraph, p: Seq<u64>, i: int) -> bool {
    edge(g, p[i], p[i + 1])
}

/// `p` is a walk along connections.
pub open spec fn is_path(g: NodeGraph, p: Seq<u64>) -> bool {
    p.len() >= 1 && forall|i: int| 0 <= i < p.len() - 1 ==> #[trigger] step(g, p, i)
}

/// `p` is a closed walk of at least one connection.
pub open spec fn is_cycle(g: NodeGraph, p: Seq<u64>) -> bool {
    is_path(g, p) && p.len() >= 2 && p[0] == p.last()
}

/// `v` is the identifier of a node of the graph.
pub open spec fn is_graph_node(g: NodeGraph, v: u64) -> bool {
    exists|i: int| 0 <= i < g.nodes@.len() && (#[trigger] g.nodes@[i]).id.0 == v
}

/// From some node of the graph, following connections leads into a cycle.
pub open spec fn has_cycle(g: NodeGraph) -> bool {
    exists|p: Seq<u64>, q: Seq<u64>|
        #[trigger] is_path(g, p) && is_graph_node(g, p[0]) && #[trigger] is_cycle(g, q) && q[0]
            == p.last()
}

/// Every identifier that appears as a node or as an end of a connection.
pub open spec fn vertex_seq(g: NodeGraph) -> Seq<u64> {
    g.nodes@.map_values(|n: crate::node_graph::Node| n.id.0) + g.connections@.map_values(
        |c: crate::node_graph::Connection| c.from_node.0,
    ) + g.connections@.map_values(|c: crate::node_graph::Connection| c.to_node.0)
}

pub open spec fn vertices(g: NodeGraph) -> Set<u64> {
    vertex_seq(g).to_set()
}

pub open spec fn seq_set(s: Seq<u64>) -> Set<u64> {
    Set::new(|x: u64| s.contains(x))
}

/// Explored and no longer on the search stack.
pub open spec fn black(v: u64, vis: Seq<u64>, st: Seq<u64>) -> bool {
    vis.contains(v) && !st.contains(v)
}

/// Connections from finished nodes lead to finished nodes.
pub open spec fn closed(g: NodeGraph, vis: Seq<u64>, st: Seq<u64>) -> bool {
    forall|a: u64, b: u64| #[trigger] edge(g, a, b) && black(a, vis, st) ==> black(b, vis, st)
}

/// No cycle runs through finished nodes only.
pub open spec fn no_black_cycle(g: NodeGraph, vis: Seq<u64>, st: Seq<u64>) -> bool {
    forall|p: Seq<u64>|
        #[trigger] is_cycle(g, p) ==> exists|j: int| 0 <= j < p.len() && !black(p[j], vis, st)
}

/// The state of the depth-first search between steps.
pub open spec fn dfs_inv(g: NodeGraph, vis: Seq<u64>, st: Seq<u64>) -> bool {
    &&& forall|x: u64| st.contains(x) ==> vis.contains(x)
    &&& forall|x: u64| vis.contains(x) ==> vertices(g).contains(x)
    &&& closed(g, vis, st)
    &&& no_black_cycle(g, vis, st)
    &&& st.len() > 0 ==> is_path(g, st) && is_graph_node(g, st[0])
}

proof fn lemma_edge_vertices(g: NodeGraph, a: u64, b: u64)
    requires
        edge(g, a, b),
    ensures
        vertices(g).contains(a),
        vertices(g).contains(b),
{
    let k = choose|k: int|
        #![trigger g.connections@[k]]
        0 <= k < g.connections@.len() && g.connections@[k].from_node.0 == a
            && g.connections@[k].to_node.0 == b;
    let n = g.nodes@.len();
    let m = g.connections@.len();
    let vs = vertex_seq(g);
    assert(vs[n + k] == a);
    assert(vs[n + m + k] == b);
}

proof fn lemma_node_vertex(g: NodeGraph, v: u64)
    requires
        is_graph_node(g, v),
    ensures
        vertices(g).contains(v),
{
    let i = choose|i: int| 0 <= i < g.nodes@.len() && (#[trigger] g.nodes@[i]).id.0 == v;
    assert(vertex_seq(g)[i] == v);
}

/// Along a walk that starts at a finished node, every node is finished.
proof fn lemma_closed_path(g: NodeGraph, vis: Seq<u64>, st: Seq<u64>, p: Seq<u64>, j: int)
    requires
        closed(g, vis, st),
        is_path(g, p),
        black(p[0], vis, st),
        0 <= j < p.len(),
    ensures
        black(p[j], vis, st),
    decreases j,
{
    if j > 0 {
        lemma_closed_path(g, vis, st, p, j - 1);
        assert(step(g, p, j - 1));
    }
}

/// The measure of the search: identifiers not yet explored.
pub open spec fn unexplored(g: NodeGraph, vis: Seq<u64>) -> nat {
    vertices(g).difference(seq_set(vis)).len()
}

proof fn lemma_unexplored_decreases(g: NodeGraph, vis: Seq<u64>, vis2: Seq<u64>, u: u64)
    requires
        vertices(g).contains(u),
        !vis.contains(u),
        vis2.contains(u),
        forall|x: u64| vis.contains(x) ==> vis2.contains(x),
    ensures
        unexplored(g, vis2) < unexplored(g, vis),
{
    broadcast use vstd::seq_lib::seq_to_set_is_finite;

    let u_all = vertices(g);
    let d1 = u_all.difference(seq_set(vis));
    let d2 = u_all.difference(seq_set(vis2));
    vstd::set_lib::lemma_len_difference(u_all, seq_set(vis));
    vstd::set_lib::lemma_len_subset(d1, u_all);
    assert(d1.contains(u));
    assert(d2.subset_of(d1.remove(u)));
    vstd::set_lib::lemma_len_subset(d2, d1.remove(u));
}

/// Depth-first search from `u`. Returns `true` when it meets a node that is
/// still on the stack, which closes a cycle.
pub fn has_cycle_util(g: &NodeGraph, u: u64, visited: &mut Vec<u64>, rec_stack: &mut Vec<u64>) -> (r:
    bool)
    requires
        dfs_inv(*g, old(visited)@, old(rec_stack)@),
        !old(visited)@.contains(u),
        vertices(*g).contains(u),
        old(rec_stack)@.len() == 0 ==> is_graph_node(*g, u),
        old(rec_stack)@.len() > 0 ==> edge(*g, old(rec_stack)@.last(), u),
    ensures
        r ==> has_cycle(*g),
        !r ==> {
            &&& dfs_inv(*g, final(visited)@, final(rec_stack)@)
            &&& final(rec_stack)@ == old(rec_stack)@
            &&& black(u, final(visited)@, final(rec_stack)@)
            &&& forall|x: u64| old(visited)@.contains(x) ==> final(visited)@.contains(x)
        },
    decreases unexplored(*g, old(visited)@),
{
    let ghost vis0 = visited@;
    let ghost st0 = rec_stack@;
    visited.push(u);
    rec_stack.push(u);
    proof {
        assert forall|x: u64| vis0.contains(x) implies visited@.contains(x) by {
            let i = choose|i: int| 0 <= i < vis0.len() && vis0[i] == x;
            assert(visited@[i] == x);
        }
        assert(visited@.contains(u)) by {
            assert(visited@[visited@.len() - 1] == u);
        }
        assert(rec_stack@.last() == u);
        // the stack is still a walk from a graph node
        if st0.len() == 0 {
            assert(rec_stack@[0] == u);
            assert forall|i: int| 0 <= i < rec_stack@.len() - 1 implies #[trigger] step(
                *g,
                rec_stack@,
                i,
            ) by {}
        } else {
            assert forall|i: int| 0 <= i < rec_stack@.len() - 1 implies #[trigger] step(
                *g,
                rec_stack@,
                i,
            ) by {
                if i < st0.len() - 1 {
                    assert(step(*g, st0, i));
                } else {
                    assert(rec_stack@[i] == st0.last());
                    assert(rec_stack@[i + 1] == u);
                }
            }
            assert(rec_stack@[0] == st0[0]);
        }
        // finished nodes are unchanged: u was neither explored nor finished
        assert forall|x: u64| black(x, visited@, rec_stack@) <==> black(x, vis0, st0) by {
            if x != u {
                assert(visited@.contains(x) ==> vis0.contains(x)) by {
                    if visited@.contains(x) {
                        let i = choose|i: int| 0 <= i < visited@.len() && visited@[i] == x;
                        assert(i < vis0.len());
                        assert(vis0[i] == x);
                    }
                }
                assert(st0.contains(x) ==> rec_stack@.contains(x)) by {
                    if st0.contains(x) {
                        let i = choose|i: int| 0 <= i < st0.len() && st0[i] == x;
                        assert(rec_stack@[i] == x);
                    }
                }
                assert(rec_stack@.contains(x) ==> st0.contains(x)) by {
                    if rec_stack@.contains(x) {
                        let i = choose|i: int| 0 <= i < rec_stack@.len() && rec_stack@[i] == x;
                        assert(i < st0.len());
                        assert(st0[i] == x);
                    }
                }
            } else {
                assert(rec_stack@.contains(u)) by {
                    assert(rec_stack@[rec_stack@.len() - 1] == u);
                }
            }
        }
        assert forall|x: u64| rec_stack@.contains(x) implies visited@.contains(x) by {
            if x != u {
                let i = choose|i: int| 0 <= i < rec_stack@.len() && rec_stack@[i] == x;
                assert(st0[i] == x);
                assert(vis0.contains(x));
            }
        }
        assert forall|x: u64| visited@.contains(x) implies vertices(*g).contains(x) by {
            if x != u {
                let i = choose|i: int| 0 <= i < visited@.len() && visited@[i] == x;
                assert(vis0[i] == x);
                assert(vis0.contains(x));
            }
        }
    }
    let ghost st1 = rec_stack@;
    let mut k: usize = 0;
    while k < g.connections.len()
        invariant
            k <= g.connections@.len(),
            dfs_inv(*g, visited@, rec_stack@),
            rec_stack@ == st1,
            st1 == st0.push(u),
            visited@.contains(u),
            forall|x: u64| vis0.contains(x) ==> visited@.contains(x),
            forall|x: u64| black(x, vis0, st0) ==> black(x, visited@, rec_stack@),
            forall|j: int|
                0 <= j < k && (#[trigger] g.connections@[j]).from_node.0 == u ==> black(
                    g.connections@[j].to_node.0,
                    visited@,
                    rec_stack@,
                ),
            !old(visited)@.contains(u),
            vertices(*g).contains(u),
            vis0 == old(visited)@,
        decreases g.connections@.len() - k,
    {
        let c = g.connections[k];
        if c.from_node.0 == u {
            let t = c.to_node.0;
            proof {
                assert(edge(*g, u, t));
                lemma_edge_vertices(*g, u, t);
            }
            if !vec_contains(visited, t) {
                let ghost vis_before = visited@;
                proof {
                    lemma_unexplored_decreases(*g, vis0, visited@, u);
                    assert(rec_stack@.last() == u);
                }
                let found = has_cycle_util(g, t, visited, rec_stack);
                if found {
                    return true;
                }
                proof {
                    assert forall|x: u64| black(x, vis0, st0) implies black(x, visited@, rec_stack@) by {
                        assert(black(x, vis_before, rec_stack@));
                    }
                    assert forall|j: int|
                        0 <= j < k + 1 && (#[trigger] g.connections@[j]).from_node.0 == u implies black(
                        g.connections@[j].to_node.0,
                        visited@,
                        rec_stack@,
                    ) by {
                        if j < k {
                            assert(black(g.connections@[j].to_node.0, vis_before, rec_stack@));
                        }
                    }
                }
            } else if vec_contains(rec_stack, t) {
                proof {
                    lemma_stack_cycle(*g, rec_stack@, t);
                }
                return true;
            }
        }
        k = k + 1;
    }
    rec_stack.pop();
    proof {
        assert(rec_stack@ =~= st0);
        lemma_finish(*g, visited@, st0, u);
    }
    false
}

/// When the last node `u` of the stack has all its successors finished,
/// popping it keeps the search invariant and finishes `u`.
proof fn lemma_finish(g: NodeGraph, vis: Seq<u64>, st0: Seq<u64>, u: u64)
    requires
        dfs_inv(g, vis, st0.push(u)),
        vis.contains(u),
        !st0.contains(u),
        forall|t: u64| edge(g, u, t) ==> black(t, vis, st0.push(u)),
        st0.len() > 0 ==> is_path(g, st0) && is_graph_node(g, st0[0]),
    ensures
        dfs_inv(g, vis, st0),
        black(u, vis, st0),
{
    let st1 = st0.push(u);
    assert(st1.contains(u)) by {
        assert(st1[st1.len() - 1] == u);
    }
    // finished before popping stays finished
    assert forall|x: u64| black(x, vis, st1) implies black(x, vis, st0) by {
        if st0.contains(x) {
            let i = choose|i: int| 0 <= i < st0.len() && st0[i] == x;
            assert(st1[i] == x);
        }
    }
    // the new finished set is the old one plus u
    assert forall|x: u64| black(x, vis, st0) && x != u implies black(x, vis, st1) by {
        if st1.contains(x) {
            let i = choose|i: int| 0 <= i < st1.len() && st1[i] == x;
            assert(i < st0.len());
            assert(st0[i] == x);
        }
    }
    assert forall|x: u64| st0.contains(x) implies vis.contains(x) by {
        let i = choose|i: int| 0 <= i < st0.len() && st0[i] == x;
        assert(st1[i] == x);
    }
    assert forall|a: u64, b: u64| #[trigger] edge(g, a, b) && black(a, vis, st0) implies black(
        b,
        vis,
        st0,
    ) by {
        if a == u {
        } else {
            assert(black(a, vis, st1));
        }
    }
    assert forall|p: Seq<u64>| #[trigger] is_cycle(g, p) implies exists|j: int|
        0 <= j < p.len() && !black(p[j], vis, st0) by {
        if forall|j: int| 0 <= j < p.len() ==> black(p[j], vis, st0) {
            // some node of p is u, else p would be a finished cycle before popping
            let j0 = choose|j: int| 0 <= j < p.len() && !black(p[j], vis, st1);
            assert(black(p[j0], vis, st0));
            assert(p[j0] == u);
            let j1 = if j0 == 0 {
                p.len() - 1
            } else {
                j0
            };
            assert(p[j1] == u);
            assert(step(g, p, j1 - 1));
            let a = p[j1 - 1];
            assert(edge(g, a, u));
            assert(black(a, vis, st0));
            if a == u {
                assert(black(u, vis, st1));
            } else {
                assert(black(a, vis, st1));
                assert(black(u, vis, st1));
            }
        }
    }
}

/// An edge from the top of the stack back into the stack closes a cycle.
proof fn lemma_stack_cycle(g: NodeGraph, st: Seq<u64>, t: u64)
    requires
        st.len() > 0,
        is_path(g, st),
        is_graph_node(g, st[0]),
        edge(g, st.last(), t),
        st.contains(t),
    ensures
        has_cycle(g),
{
    let j = choose|j: int| 0 <= j < st.len() && st[j] == t;
    let p = st.subrange(0, j + 1);
    let q = st.subrange(j, st.len() as int).push(t);
    assert forall|i: int| 0 <= i < p.len() - 1 implies #[trigger] step(g, p, i) by {
        assert(step(g, st, i));
    }
    assert forall|i: int| 0 <= i < q.len() - 1 implies #[trigger] step(g, q, i) by {
        if i < q.len() - 2 {
            assert(step(g, st, i + j));
        }
    }
    assert(is_path(g, p));
    assert(is_cycle(g, q));
}

/// Whether `v` holds `x`.
pub fn vec_contains(v: &Vec<u64>, x: u64) -> (b: bool)
    ensures
        b == v@.contains(x),
{
    let mut i: usize = 0;
    while i < v.len()
        invariant
            i <= v@.len(),
            forall|j: int| 0 <= j < i ==> v@[j] != x,
        decreases v@.len() - i,
    {
        if v[i] == x {
            return true;
        }
        i = i + 1;
    }
    false
}

/// Whether some node of the graph reaches a cycle along connections.
pub fn has_cycles(g: &NodeGraph) -> (b: bool)
    ensures
        b == has_cycle(*g),
{
    let mut visited: Vec<u64> = Vec::new();
    let mut rec_stack: Vec<u64> = Vec::new();
    let mut i: usize = 0;
    proof {
        assert forall|p: Seq<u64>| #[trigger] is_cycle(*g, p) implies exists|j: int|
            0 <= j < p.len() && !black(p[j], visited@, rec_stack@) by {
            assert(!black(p[0], visited@, rec_stack@));
        }
    }
    while i < g.nodes.len()
        invariant
            i <= g.nodes@.len(),
            dfs_inv(*g, visited@, rec_stack@),
            rec_stack@.len() == 0,
            forall|j: int| 0 <= j < i ==> visited@.contains(#[trigger] g.nodes@[j].id.0),
        decreases g.nodes@.len() - i,
    {
        let id = g.nodes[i].id.0;
        if !vec_contains(&visited, id) {
            proof {
                assert(is_graph_node(*g, id));
                lemma_node_vertex(*g, id);
            }
            if has_cycle_util(g, id, &mut visited, &mut rec_stack) {
                return true;
            }
        }
        i = i + 1;
    }
    proof {
        assert forall|p: Seq<u64>, q: Seq<u64>|
            #[trigger] is_path(*g, p) && is_graph_node(*g, p[0]) && #[trigger] is_cycle(*g, q)
                && q[0] == p.last() implies false by {
            let r = choose|j: int| 0 <= j < g.nodes@.len() && (#[trigger] g.nodes@[j]).id.0 == p[0];
            assert(visited@.contains(g.nodes@[r].id.0));
            lemma_closed_path(*g, visited@, rec_stack@, p, p.len() - 1);
            lemma_closed_path(*g, visited@, rec_stack@, q, 0);
            assert forall|j: int| 0 <= j < q.len() implies black(q[j], visited@, rec_stack@) by {
                lemma_closed_path(*g, visited@, rec_stack@, q, j);
            }
        }
    }
    false
}

} // verus!
