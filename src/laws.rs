//! Properties of routes and of route registration, stated over the graph
//! model that the operations' contracts use.

use vstd::prelude::*;

use crate::route::{edge_key_of, Graph, MAX_HOPS};

verus! {

/// Distinct directed pairs never share a key: in particular `(a, b)` and
/// `(b, a)` are told apart whenever `a != b`.
pub proof fn lemma_edge_key_injective(a: u32, b: u32, c: u32, d: u32)
    ensures
        edge_key_of(a, b) == edge_key_of(c, d) <==> (a == c && b == d),
{
    let x = a as int * 0x1_0000_0000 + b as int;
    let y = c as int * 0x1_0000_0000 + d as int;
    assert(0 <= x < 0x1_0000_0000_0000_0000) by (nonlinear_arith)
        requires
            x == a as int * 0x1_0000_0000 + b as int,
            0 <= a < 0x1_0000_0000,
            0 <= b < 0x1_0000_0000,
    ;
    assert(0 <= y < 0x1_0000_0000_0000_0000) by (nonlinear_arith)
        requires
            y == c as int * 0x1_0000_0000 + d as int,
            0 <= c < 0x1_0000_0000,
            0 <= d < 0x1_0000_0000,
    ;
    if x == y {
        assert(a == c && b == d) by (nonlinear_arith)
            requires
                a as int * 0x1_0000_0000 + b as int == c as int * 0x1_0000_0000 + d as int,
                0 <= b < 0x1_0000_0000,
                0 <= d < 0x1_0000_0000,
        ;
    }
}

/// A route from a node to itself is that node alone.
pub proof fn lemma_route_to_self(g: Graph, n: u32)
    ensures
        g.route(n, n) == seq![n],
{
}

/// From a node that has no outgoing edge, the route is the start node alone.
pub proof fn lemma_route_from_dead_end(g: Graph, from: u32, to: u32)
    requires
        g.neighbors(from).len() == 0,
    ensures
        g.route(from, to) == seq![from],
{
    assert(g.walk(to, from, MAX_HOPS as nat) =~= seq![]);
    assert(seq![from] + seq![] =~= seq![from]);
}

/// A walk takes at most `hops` steps.
pub proof fn lemma_walk_len_bounded(g: Graph, to: u32, current: u32, hops: nat)
    ensures
        g.walk(to, current, hops).len() <= hops,
    decreases hops,
{
    if hops > 0 && current != to && g.neighbors(current).len() > 0 {
        lemma_walk_len_bounded(g, to, g.next_hop(current), (hops - 1) as nat);
    }
}

/// Every route starts at its source and holds at most `MAX_HOPS + 1` nodes.
pub proof fn lemma_route_bounded(g: Graph, from: u32, to: u32)
    ensures
        1 <= g.route(from, to).len() <= MAX_HOPS + 1,
        g.route(from, to)[0] == from,
{
    lemma_walk_len_bounded(g, to, from, MAX_HOPS as nat);
}

/// A walk that stays among nodes which all have an outgoing edge and none of
/// which is the destination takes exactly `hops` steps.
pub proof fn lemma_walk_len_in_closed_set(g: Graph, to: u32, nodes: Set<u32>, current: u32, hops: nat)
    requires
        nodes.contains(current),
        forall|n: u32| #[trigger]
            nodes.contains(n) ==> n != to && g.neighbors(n).len() > 0 && nodes.contains(
                g.next_hop(n),
            ),
    ensures
        g.walk(to, current, hops).len() == hops,
    decreases hops,
{
    if hops > 0 {
        lemma_walk_len_in_closed_set(g, to, nodes, g.next_hop(current), (hops - 1) as nat);
    }
}

/// `cheapest_index` picks the first neighbour of least step cost.
pub proof fn lemma_cheapest_is_first_minimum(g: Graph, current: u32, ns: Seq<u32>, len: nat)
    requires
        1 <= len <= ns.len(),
    ensures
        0 <= g.cheapest_index(current, ns, len) < len,
        forall|j: int|
            0 <= j < len ==> g.step_cost(current, ns[g.cheapest_index(current, ns, len)])
                <= #[trigger] g.step_cost(current, ns[j]),
        forall|j: int|
            0 <= j < g.cheapest_index(current, ns, len) ==> #[trigger] g.step_cost(current, ns[j])
                > g.step_cost(current, ns[g.cheapest_index(current, ns, len)]),
    decreases len,
{
    if len > 1 {
        lemma_cheapest_is_first_minimum(g, current, ns, (len - 1) as nat);
    }
}

/// The next hop is a neighbour of least step cost, and no neighbour listed
/// before it costs as little.
pub proof fn lemma_next_hop_first_cheapest(g: Graph, current: u32)
    requires
        g.neighbors(current).len() > 0,
    ensures
        exists|i: int|
            0 <= i < g.neighbors(current).len() && g.neighbors(current)[i] == g.next_hop(current)
                && (forall|j: int|
                0 <= j < g.neighbors(current).len() ==> g.step_cost(current, g.next_hop(current))
                    <= #[trigger] g.step_cost(current, g.neighbors(current)[j])) && (forall|j: int|
                0 <= j < i ==> #[trigger] g.step_cost(current, g.neighbors(current)[j])
                    > g.step_cost(current, g.next_hop(current))),
{
    let ns = g.neighbors(current);
    lemma_cheapest_is_first_minimum(g, current, ns, ns.len());
    let i = g.cheapest_index(current, ns, ns.len());
    assert(ns[i] == g.next_hop(current));
}

/// With two neighbours of equal cost, the walk takes the one added first.
pub proof fn lemma_tie_goes_to_first(g: Graph, a: u32, b: u32, c: u32, x: u32)
    requires
        g.neighbors(a) == seq![b, c],
        g.step_cost(a, b) == g.step_cost(a, c),
        x != a,
    ensures
        g.next_hop(a) == b,
        g.route(a, x).len() >= 2,
        g.route(a, x)[1] == b,
{
    let ns = g.neighbors(a);
    assert(g.cheapest_index(a, ns, 1) == 0);
    assert(g.cheapest_index(a, ns, 2) == 0);
    assert(g.walk(x, a, MAX_HOPS as nat) == seq![b] + g.walk(x, b, (MAX_HOPS - 1) as nat));
}

/// Registering an edge sets its cost and leaves every other pair's cost as
/// it was; in particular the reverse direction is untouched.
pub proof fn lemma_cost_after_add(g: Graph, a: u32, b: u32, c: u128, x: u32, y: u32)
    ensures
        g.with_route(a, b, c).cost(a, b) == c,
        (x, y) != (a, b) ==> g.with_route(a, b, c).cost(x, y) == g.cost(x, y),
        a != b ==> g.with_route(a, b, c).cost(b, a) == g.cost(b, a),
{
    lemma_edge_key_injective(a, b, x, y);
    lemma_edge_key_injective(a, b, b, a);
}

/// Registration keeps a graph well formed.
pub proof fn lemma_with_route_well_formed(g: Graph, a: u32, b: u32, c: u128)
    requires
        g.well_formed(),
    ensures
        g.with_route(a, b, c).well_formed(),
{
    let g1 = g.with_route(a, b, c);
    assert forall|n: u32| #[trigger] g1.adjacency.contains_key(n) implies {
        &&& g1.adjacency[n].no_duplicates()
        &&& forall|i: int|
            0 <= i < g1.adjacency[n].len() ==> g1.has_edge(n, #[trigger] g1.adjacency[n][i])
    } by {
        assert forall|i: int| 0 <= i < g1.adjacency[n].len() implies g1.has_edge(
            n,
            #[trigger] g1.adjacency[n][i],
        ) by {
            if n != a || !(i == g1.adjacency[n].len() - 1 && !g.neighbors(a).contains(b)) {
                assert(g.has_edge(n, g1.adjacency[n][i]));
            }
        }
    }
}

/// Registering the same edge twice keeps a single entry for it in the
/// neighbour list, and the later cost wins.
pub proof fn lemma_readd_route(g: Graph, a: u32, b: u32, c1: u128, c2: u128)
    requires
        g.well_formed(),
    ensures
        g.with_route(a, b, c1).with_route(a, b, c2).neighbors(a) == g.with_route(a, b, c1).neighbors(
            a,
        ),
        g.with_route(a, b, c1).with_route(a, b, c2).neighbors(a).contains(b),
        g.with_route(a, b, c1).with_route(a, b, c2).neighbors(a).no_duplicates(),
        g.with_route(a, b, c1).with_route(a, b, c2).cost(a, b) == c2,
{
    lemma_with_route_well_formed(g, a, b, c1);
    let g1 = g.with_route(a, b, c1);
    assert(g1.neighbors(a).contains(b)) by {
        if !g.neighbors(a).contains(b) {
            assert(g1.neighbors(a)[g1.neighbors(a).len() - 1] == b);
        }
    }
    assert(g1.adjacency.contains_key(a));
}

/// On a three-node cycle of unit costs, a route to a node off the cycle walks
/// round it for the full hop budget.
pub proof fn lemma_cycle_walks_full(a: u32, b: u32, c: u32, z: u32)
    requires
        a != b,
        b != c,
        a != c,
        z != a,
        z != b,
        z != c,
    ensures
        Graph::empty().with_route(a, b, 1).with_route(b, c, 1).with_route(c, a, 1).route(a, z).len()
            == MAX_HOPS + 1,
{
    let g = Graph::empty().with_route(a, b, 1).with_route(b, c, 1).with_route(c, a, 1);
    assert(g.neighbors(a) == seq![b]);
    assert(g.neighbors(b) == seq![c]);
    assert(g.neighbors(c) == seq![a]);
    assert(g.cheapest_index(a, seq![b], 1) == 0);
    assert(g.cheapest_index(b, seq![c], 1) == 0);
    assert(g.cheapest_index(c, seq![a], 1) == 0);
    let nodes = set![a, b, c];
    assert forall|n: u32| #[trigger]
        nodes.contains(n) implies n != z && g.neighbors(n).len() > 0 && nodes.contains(
            g.next_hop(n),
        ) by {}
    lemma_walk_len_in_closed_set(g, z, nodes, a, MAX_HOPS as nat);
}

} // verus!
