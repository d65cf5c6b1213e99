use std::collections::HashMap;
use vstd::prelude::*;

use crate::identity::Identity;
use crate::route::{edge_key_of, Graph, MAX_HOPS};

verus! {

broadcast use vstd::std_specs::hash::group_hash_axioms;

/// Why a mutation was refused.
#[derive(Clone, Copy, Debug, PartialEq, Eq, Structural)]
pub enum RouteError {
    /// The caller is not the administrator fixed at construction.
    Unauthorized,
}

/// The route graph together with the identity allowed to change it.
pub struct Pathfinder {
    adjacency: HashMap<u32, Vec<u32>>,
    edge_costs: HashMap<u64, u128>,
    admin: Identity,
}

impl Pathfinder {
    /// The graph held, as a mathematical value.
    pub closed spec fn graph(&self) -> Graph {
        Graph {
            adjacency: self.adjacency@.map_values(|ns: Vec<u32>| ns@),
            costs: self.edge_costs@,
        }
    }

    /// The administrator's identity.
    pub closed spec fn admin_id(&self) -> Seq<u8> {
        self.admin@
    }

    pub open spec fn well_formed(&self) -> bool {
        self.graph().well_formed()
    }

    /// An empty graph administered by `caller`.
    pub fn new(caller: Identity) -> (r: Pathfinder)
        ensures
            r.graph() == Graph::empty(),
            r.admin_id() == caller@,
            r.well_formed(),
    {
        let r = Pathfinder { adjacency: HashMap::new(), edge_costs: HashMap::new(), admin: caller };
        proof {
            assert(r.graph().adjacency =~= Map::empty());
            assert(r.graph().costs =~= Map::empty());
        }
        r
    }

    /// The administrator's identity.
    pub fn admin(&self) -> (r: Identity)
        ensures
            r@ == self.admin_id(),
    {
        self.admin
    }

    /// Packs `(from, to)` into one key: `from` in the high half, `to` in the
    /// low half.
    pub fn edge_key(from: u32, to: u32) -> (r: u64)
        ensures
            r == edge_key_of(from, to),
    {
        let r = ((from as u64) << 32u64) | (to as u64);
        proof {
            let f = from as u64;
            let t = to as u64;
            assert(((f << 32u64) | t) == f * 0x1_0000_0000u64 + t) by (bit_vector)
                requires
                    f < 0x1_0000_0000u64,
                    t < 0x1_0000_0000u64,
            ;
        }
        r
    }

    /// Whether `caller` may change the graph.
    pub fn authorize(&self, caller: &Identity) -> (r: bool)
        ensures
            r == (caller@ == self.admin_id()),
    {
        caller.same_as(&self.admin)
    }

    /// Registers the edge `from -> to` with `cost`, on behalf of `caller`.
    ///
    /// Only the administrator may do so; anyone else gets `Unauthorized` and
    /// the graph is left as it was.
    pub fn add_route(&mut self, caller: Identity, from: u32, to: u32, cost: u128) -> (r: Result<
        (),
        RouteError,
    >)
        ensures
            r is Ok <==> caller@ == old(self).admin_id(),
            r is Ok ==> final(self).graph() == old(self).graph().with_route(from, to, cost),
            r is Err ==> final(self).graph() == old(self).graph(),
            final(self).admin_id() == old(self).admin_id(),
            old(self).well_formed() ==> final(self).well_formed(),
    {
        if !self.authorize(&caller) {
            return Err(RouteError::Unauthorized);
        }
        let ghost g0 = self.graph();
        let key = Self::edge_key(from, to);
        self.edge_costs.insert(key, cost);
        let mut ns = match self.adjacency.remove(&from) {
            Some(ns) => ns,
            None => Vec::new(),
        };
        assert(ns@ == g0.neighbors(from));
        if !contains(&ns, to) {
            ns.push(to);
        }
        self.adjacency.insert(from, ns);
        proof {
            let g1 = self.graph();
            let g2 = g0.with_route(from, to, cost);
            assert(g1.adjacency =~= g2.adjacency);
            assert(g1.costs =~= g2.costs);
        }
        Ok(())
    }

    /// Cost of the edge `from -> to`; `0` when there is none.
    pub fn get_edge_cost(&self, from: u32, to: u32) -> (r: u128)
        ensures
            r == self.graph().cost(from, to),
    {
        match self.edge_costs.get(&Self::edge_key(from, to)) {
            Some(c) => *c,
            None => 0,
        }
    }

    /// Out-neighbours of `node` in the order they were first added.
    pub fn get_neighbors(&self, node: u32) -> (r: Vec<u32>)
        ensures
            r@ == self.graph().neighbors(node),
    {
        let mut r: Vec<u32> = Vec::new();
        match self.adjacency.get(&node) {
            Some(ns) => {
                let mut i: usize = 0;
                while i < ns.len()
                    invariant
                        i <= ns.len(),
                        r@ == ns@.subrange(0, i as int),
                    decreases ns.len() - i,
                {
                    r.push(ns[i]);
                    i = i + 1;
                }
                assert(r@ =~= ns@);
            },
            None => {},
        }
        r
    }

    /// Cost of `from -> to` as the route walk weighs it.
    fn step_cost(&self, from: u32, to: u32) -> (r: u128)
        ensures
            r == self.graph().step_cost(from, to),
    {
        match self.edge_costs.get(&Self::edge_key(from, to)) {
            Some(c) => *c,
            None => u128::MAX,
        }
    }

    /// The first neighbour of least step cost in `ns`.
    fn cheapest_neighbor(&self, current: u32, ns: &Vec<u32>) -> (r: u32)
        requires
            ns.len() > 0,
        ensures
            r == ns@[self.graph().cheapest_index(current, ns@, ns@.len())],
    {
        let ghost g = self.graph();
        let mut best: usize = 0;
        let mut best_cost = self.step_cost(current, ns[0]);
        let mut i: usize = 1;
        while i < ns.len()
            invariant
                g == self.graph(),
                1 <= i <= ns.len(),
                best == g.cheapest_index(current, ns@, i as nat),
                0 <= best < i,
                best_cost == g.step_cost(current, ns@[best as int]),
            decreases ns.len() - i,
        {
            let c = self.step_cost(current, ns[i]);
            assert(g.cheapest_index(current, ns@, (i + 1) as nat) == if c < best_cost {
                i as int
            } else {
                best as int
            });
            if c < best_cost {
                best = i;
                best_cost = c;
            }
            i = i + 1;
        }
        ns[best]
    }

    /// A route from `from` towards `to`: starting at `from`, repeatedly move
    /// to the cheapest immediate neighbour (the first one on a tie), for at
    /// most `MAX_HOPS` hops, stopping early at `to` or at a node with no
    /// neighbours. The route need not end at `to`.
    pub fn find_route(&self, from: u32, to: u32) -> (path: Vec<u32>)
        ensures
            path@ == self.graph().route(from, to),
    {
        if from == to {
            return vec![from];
        }
        let ghost g = self.graph();
        let mut path: Vec<u32> = vec![from];
        let mut current = from;
        let mut hop: usize = 0;
        while hop < MAX_HOPS
            invariant_except_break
                g == self.graph(),
                from != to,
                hop <= MAX_HOPS,
                path@ + g.walk(to, current, (MAX_HOPS - hop) as nat) == seq![from] + g.walk(
                    to,
                    from,
                    MAX_HOPS as nat,
                ),
            ensures
                path@ == seq![from] + g.walk(to, from, MAX_HOPS as nat),
            decreases MAX_HOPS - hop,
        {
            if current == to {
                assert(path@ =~= path@ + g.walk(to, current, (MAX_HOPS - hop) as nat));
                break;
            }
            match self.adjacency.get(&current) {
                Some(ns) => {
                    assert(g.adjacency.contains_key(current));
                    assert(ns@ == g.neighbors(current));
                    if ns.len() == 0 {
                        assert(path@ =~= path@ + g.walk(to, current, (MAX_HOPS - hop) as nat));
                        break;
                    }
                    let ghost rest = g.walk(to, current, (MAX_HOPS - hop) as nat);
                    let next = self.cheapest_neighbor(current, ns);
                    assert(rest == seq![next] + g.walk(to, next, (MAX_HOPS - hop - 1) as nat));
                    path.push(next);
                    current = next;
                    assert(path@ + g.walk(to, current, (MAX_HOPS - hop - 1) as nat) =~= path@.drop_last() + rest);
                },
                None => {
                    assert(!g.adjacency.contains_key(current));
                    assert(path@ =~= path@ + g.walk(to, current, (MAX_HOPS - hop) as nat));
                    break;
                },
            }
            hop = hop + 1;
        }
        path
    }
}

/// Whether `node` occurs in `ns`.
fn contains(ns: &Vec<u32>, node: u32) -> (r: bool)
    ensures
        r == ns@.contains(node),
{
    let mut i: usize = 0;
    while i < ns.len()
        invariant
            i <= ns.len(),
            forall|j: int| 0 <= j < i ==> ns@[j] != node,
        decreases ns.len() - i,
    {
        if ns[i] == node {
            return true;
        }
        i = i + 1;
    }
    false
}

} // verus!
