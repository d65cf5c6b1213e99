use vstd::prelude::*;

verus! {

/// The largest number of hops a route walk takes.
pub const MAX_HOPS: usize = 10;

/// The single 64-bit lookup key of the directed pair `(from, to)`: `from` in
/// the high 32 bits, `to` in the low 32 bits.
pub open spec fn edge_key_of(from: u32, to: u32) -> u64 {
    (from as int * 0x1_0000_0000 + to as int) as u64
}

/// The graph as a mathematical value: each node's ordered out-neighbours,
/// and each edge's cost under its packed key.
pub struct Graph {
    pub adjacency: Map<u32, Seq<u32>>,
    pub costs: Map<u64, u128>,
}

impl Graph {
    /// The graph with no nodes and no edges.
    pub open spec fn empty() -> Graph {
        Graph { adjacency: Map::empty(), costs: Map::empty() }
    }

    /// Out-neighbours of `node` in insertion order; empty for an unknown node.
    pub open spec fn neighbors(self, node: u32) -> Seq<u32> {
        if self.adjacency.contains_key(node) {
            self.adjacency[node]
        } else {
            seq![]
        }
    }

    pub open spec fn has_edge(self, from: u32, to: u32) -> bool {
        self.costs.contains_key(edge_key_of(from, to))
    }

    /// Cost of the edge `from -> to`, or `0` when there is none.
    pub open spec fn cost(self, from: u32, to: u32) -> u128 {
        if self.has_edge(from, to) {
            self.costs[edge_key_of(from, to)]
        } else {
            0
        }
    }

    /// Cost of the edge `from -> to` as the route walk weighs it: an absent
    /// edge is as expensive as can be.
    pub open spec fn step_cost(self, from: u32, to: u32) -> u128 {
        if self.has_edge(from, to) {
            self.costs[edge_key_of(from, to)]
        } else {
            u128::MAX
        }
    }

    /// The graph after registering the edge `from -> to` with `cost`: the cost
    /// is overwritten, and `to` is appended to `from`'s neighbours unless it is
    /// there already.
    pub open spec fn with_route(self, from: u32, to: u32, cost: u128) -> Graph {
        let ns = self.neighbors(from);
        Graph {
            adjacency: self.adjacency.insert(
                from,
                if ns.contains(to) {
                    ns
                } else {
                    ns.push(to)
                },
            ),
            costs: self.costs.insert(edge_key_of(from, to), cost),
        }
    }

    /// No neighbour list repeats a node, and every listed neighbour has a cost.
    pub open spec fn well_formed(self) -> bool {
        forall|n: u32| #[trigger]
            self.adjacency.contains_key(n) ==> {
                &&& self.adjacency[n].no_duplicates()
                &&& forall|i: int|
                    0 <= i < self.adjacency[n].len() ==> self.has_edge(n, #[trigger] self.adjacency[n][i])
            }
    }

    /// Index of the first neighbour of least step cost among `ns[0..len]`.
    pub open spec fn cheapest_index(self, current: u32, ns: Seq<u32>, len: nat) -> int
        decreases len,
    {
        if len <= 1 {
            0
        } else {
            let best = self.cheapest_index(current, ns, (len - 1) as nat);
            if self.step_cost(current, ns[len - 1]) < self.step_cost(current, ns[best]) {
                len - 1
            } else {
                best
            }
        }
    }

    /// The neighbour a walk moves to from `current`: the first one of least
    /// step cost.
    pub open spec fn next_hop(self, current: u32) -> u32 {
        let ns = self.neighbors(current);
        ns[self.cheapest_index(current, ns, ns.len())]
    }

    /// The nodes a greedy walk from `current` towards `to` visits after
    /// `current`, taking at most `hops` steps.
    pub open spec fn walk(self, to: u32, current: u32, hops: nat) -> Seq<u32>
        decreases hops,
    {
        if hops == 0 || current == to || self.neighbors(current).len() == 0 {
            seq![]
        } else {
            let next = self.next_hop(current);
            seq![next] + self.walk(to, next, (hops - 1) as nat)
        }
    }

    /// The route answered for `from -> to`.
    pub open spec fn route(self, from: u32, to: u32) -> Seq<u32> {
        if from == to {
            seq![from]
        } else {
            seq![from] + self.walk(to, from, MAX_HOPS as nat)
        }
    }
}

} // verus!
