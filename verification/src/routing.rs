//! Choosing a backend node for a request, per trust tier and strategy.

use vstd::prelude::*;
use crate::backend::BackendNode;
use crate::tier::{TrustTier, tier_requires_gate};
use crate::text::chars_of;
use crate::random::random_below;

verus! {

/// How a backend is picked among the nodes that have capacity.
#[derive(Debug, Clone, Copy, PartialEq, Eq, Structural)]
pub enum RoutingStrategy {
    RoundRobin,
    LeastConnections,
    WeightedRandom,
    /// Fill a node to capacity before moving to the next one.
    FillFirst,
    /// Fewest connections first, ties broken by name.
    LeastPopulatedOrdered,
}

/// Routes requests to the healthy pool or to the threat pool.
pub struct Router {
    pub healthy_nodes: Vec<BackendNode>,
    pub threat_nodes: Vec<BackendNode>,
    pub healthy_strategy: RoutingStrategy,
    pub threat_strategy: RoutingStrategy,
    pub round_robin_index: usize,
    pub fill_first_index: usize,
}

/// Whether a node has room for one more connection.
pub open spec fn has_room(n: BackendNode) -> bool {
    n.active_connections < n.max_connections
}

/// Positions of the nodes with room, in order.
pub open spec fn avail(nodes: Seq<BackendNode>) -> Seq<int>
    decreases nodes.len(),
{
    if nodes.len() == 0 {
        Seq::empty()
    } else {
        let r = avail(nodes.drop_last());
        if has_room(nodes.last()) { r.push(nodes.len() - 1) } else { r }
    }
}

proof fn lemma_avail_bounds(nodes: Seq<BackendNode>)
    ensures
        forall|k: int| 0 <= k < avail(nodes).len() ==> 0 <= #[trigger] avail(nodes)[k] < nodes.len()
            && has_room(nodes[avail(nodes)[k]]),
        forall|k: int, l: int| 0 <= k < l < avail(nodes).len() ==> #[trigger] avail(nodes)[k] < #[trigger] avail(nodes)[l],
        avail(nodes).len() <= nodes.len(),
    decreases nodes.len(),
{
    if nodes.len() > 0 {
        lemma_avail_bounds(nodes.drop_last());
        let r = avail(nodes.drop_last());
        assert forall|k: int| 0 <= k < r.len() implies has_room(nodes[r[k]]) by {
            assert(nodes.drop_last()[r[k]] == nodes[r[k]]);
        }
    }
}

/// Whether name `a` sorts strictly before name `b` (by character codes).
pub open spec fn name_lt(a: Seq<char>, b: Seq<char>) -> bool
    decreases a.len(),
{
    if a.len() == 0 {
        b.len() > 0
    } else if b.len() == 0 {
        false
    } else if (a[0] as u32) < (b[0] as u32) {
        true
    } else if (a[0] as u32) > (b[0] as u32) {
        false
    } else {
        name_lt(a.drop_first(), b.drop_first())
    }
}

/// Whether node `x` comes strictly before node `y` by (connections, name).
pub open spec fn populated_before(x: BackendNode, y: BackendNode) -> bool {
    x.active_connections < y.active_connections
        || (x.active_connections == y.active_connections && name_lt(x.name@, y.name@))
}

/// The first node with room that has the fewest connections.
pub open spec fn least_connections_pick(nodes: Seq<BackendNode>) -> Option<int>
    decreases nodes.len(),
{
    if nodes.len() == 0 {
        None
    } else {
        let best = least_connections_pick(nodes.drop_last());
        let i = nodes.len() - 1;
        if has_room(nodes[i]) && (best is None || nodes[i].active_connections < nodes[best->0].active_connections) {
            Some(i)
        } else {
            best
        }
    }
}

/// The first node with room that is least by (connections, name).
pub open spec fn least_populated_pick(nodes: Seq<BackendNode>) -> Option<int>
    decreases nodes.len(),
{
    if nodes.len() == 0 {
        None
    } else {
        let best = least_populated_pick(nodes.drop_last());
        let i = nodes.len() - 1;
        if has_room(nodes[i]) && (best is None || populated_before(nodes[i], nodes[best->0])) {
            Some(i)
        } else {
            best
        }
    }
}

/// The node that a draw `r` lands on when each node of `av` takes a run of
/// draws as long as its weight, in order.
pub open spec fn weighted_pick(nodes: Seq<BackendNode>, av: Seq<int>, r: int) -> Option<int>
    decreases av.len(),
{
    if av.len() == 0 {
        None
    } else if r < nodes[av[0]].weight {
        Some(av[0])
    } else {
        weighted_pick(nodes, av.drop_first(), r - nodes[av[0]].weight)
    }
}

/// The total weight of the nodes at positions `av`.
pub open spec fn weight_sum(nodes: Seq<BackendNode>, av: Seq<int>) -> int
    decreases av.len(),
{
    if av.len() == 0 { 0 } else { weight_sum(nodes, av.drop_last()) + nodes[av.last()].weight }
}

/// The fill-first choice: among the nodes with room, the one at the cursor
/// (back to the first when the cursor is past the end); the cursor stays,
/// so a node is used until it is full and drops out of the nodes with room.
pub open spec fn fill_first_pick(nodes: Seq<BackendNode>, index: usize) -> (Option<int>, int) {
    let av = avail(nodes);
    if av.len() == 0 {
        (None, index as int)
    } else {
        let idx = if index >= av.len() { 0 } else { index as int };
        (Some(av[idx]), idx)
    }
}

/// The round-robin choice and the new cursor.
pub open spec fn round_robin_pick(nodes: Seq<BackendNode>, index: usize) -> (Option<int>, int) {
    let av = avail(nodes);
    if av.len() == 0 {
        (None, index as int)
    } else {
        (Some(av[index as int % (av.len() as int)]), (index as int + 1) % (av.len() as int))
    }
}

fn copy_node(n: &BackendNode) -> (r: BackendNode)
    ensures
        r == *n,
{
    BackendNode {
        name: n.name.clone(),
        address: n.address.clone(),
        healthy_mode: n.healthy_mode,
        weight: n.weight,
        active_connections: n.active_connections,
        max_connections: n.max_connections,
    }
}

fn available_indices(nodes: &Vec<BackendNode>) -> (r: Vec<usize>)
    ensures
        r@.len() == avail(nodes@).len(),
        forall|k: int| 0 <= k < r@.len() ==> #[trigger] r@[k] as int == avail(nodes@)[k],
{
    let mut r: Vec<usize> = Vec::new();
    let mut i: usize = 0;
    while i < nodes.len()
        invariant
            i <= nodes@.len(),
            r@.len() == avail(nodes@.take(i as int)).len(),
            forall|k: int| 0 <= k < r@.len() ==> #[trigger] r@[k] as int == avail(nodes@.take(i as int))[k],
        decreases nodes@.len() - i,
    {
        proof {
            assert(nodes@.take(i + 1).drop_last() =~= nodes@.take(i as int));
            assert(nodes@.take(i + 1).last() == nodes@[i as int]);
        }
        if nodes[i].can_accept() {
            r.push(i);
        }
        i = i + 1;
    }
    proof {
        assert(nodes@.take(nodes@.len() as int) =~= nodes@);
    }
    r
}

fn name_before(a: &String, b: &String) -> (r: bool)
    ensures
        r == name_lt(a@, b@),
{
    let x = chars_of(a.as_str());
    let y = chars_of(b.as_str());
    let mut i: usize = 0;
    proof {
        assert(x@.skip(0) =~= x@);
        assert(y@.skip(0) =~= y@);
    }
    while i < x.len() && i < y.len()
        invariant
            i <= x@.len(),
            i <= y@.len(),
            x@ == a@,
            y@ == b@,
            name_lt(a@, b@) == name_lt(x@.skip(i as int), y@.skip(i as int)),
        decreases x@.len() - i,
    {
        let cx = x[i];
        let cy = y[i];
        proof {
            assert(x@.skip(i as int)[0] == cx);
            assert(y@.skip(i as int)[0] == cy);
            assert(x@.skip(i as int).drop_first() =~= x@.skip(i + 1));
            assert(y@.skip(i as int).drop_first() =~= y@.skip(i + 1));
        }
        if (cx as u32) < (cy as u32) {
            return true;
        }
        if (cx as u32) > (cy as u32) {
            return false;
        }
        i = i + 1;
    }
    proof {
        assert(x@.skip(i as int).len() == x@.len() - i);
        assert(y@.skip(i as int).len() == y@.len() - i);
    }
    i == x.len() && i < y.len()
}

impl Router {
    /// A router whose healthy pool uses least-populated-ordered and whose
    /// threat pool uses fill-first; the strategy argument is not used.
    pub fn new(healthy_nodes: Vec<BackendNode>, threat_nodes: Vec<BackendNode>, _strategy: RoutingStrategy) -> (r: Self)
        ensures
            r.healthy_nodes == healthy_nodes,
            r.threat_nodes == threat_nodes,
            r.healthy_strategy == RoutingStrategy::LeastPopulatedOrdered,
            r.threat_strategy == RoutingStrategy::FillFirst,
            r.round_robin_index == 0,
            r.fill_first_index == 0,
    {
        Router {
            healthy_nodes,
            threat_nodes,
            healthy_strategy: RoutingStrategy::LeastPopulatedOrdered,
            threat_strategy: RoutingStrategy::FillFirst,
            round_robin_index: 0,
            fill_first_index: 0,
        }
    }

    /// A router with explicit strategies for each pool.
    pub fn new_with_strategies(
        healthy_nodes: Vec<BackendNode>,
        threat_nodes: Vec<BackendNode>,
        healthy_strategy: RoutingStrategy,
        threat_strategy: RoutingStrategy,
    ) -> (r: Self)
        ensures
            r.healthy_nodes == healthy_nodes,
            r.threat_nodes == threat_nodes,
            r.healthy_strategy == healthy_strategy,
            r.threat_strategy == threat_strategy,
            r.round_robin_index == 0,
            r.fill_first_index == 0,
    {
        Router { healthy_nodes, threat_nodes, healthy_strategy, threat_strategy, round_robin_index: 0, fill_first_index: 0 }
    }

    /// The pool that serves a tier.
    pub open spec fn pool(&self, tier: TrustTier) -> Seq<BackendNode> {
        if tier_requires_gate(tier) { self.threat_nodes@ } else { self.healthy_nodes@ }
    }

    /// The strategy of the pool that serves a tier.
    pub open spec fn strategy(&self, tier: TrustTier) -> RoutingStrategy {
        if tier_requires_gate(tier) { self.threat_strategy } else { self.healthy_strategy }
    }

    /// The weighted strategy can draw: its pool's free weight is positive and fits in 32 bits.
    pub open spec fn weights_ok(&self, tier: TrustTier) -> bool {
        self.strategy(tier) == RoutingStrategy::WeightedRandom && avail(self.pool(tier)).len() > 0 ==> {
            &&& 0 < weight_sum(self.pool(tier), avail(self.pool(tier)))
            &&& weight_sum(self.pool(tier), avail(self.pool(tier))) <= u32::MAX
        }
    }

    fn round_robin(&mut self, use_threat: bool) -> (r: Option<BackendNode>)
        ensures
            final(self).healthy_nodes == old(self).healthy_nodes,
            final(self).threat_nodes == old(self).threat_nodes,
            final(self).healthy_strategy == old(self).healthy_strategy,
            final(self).threat_strategy == old(self).threat_strategy,
            final(self).fill_first_index == old(self).fill_first_index,
            ({
                let nodes = if use_threat { old(self).threat_nodes@ } else { old(self).healthy_nodes@ };
                let p = round_robin_pick(nodes, old(self).round_robin_index);
                &&& final(self).round_robin_index == p.1
                &&& match p.0 { Some(i) => r == Some(nodes[i]), None => r is None }
            }),
    {
        let av = if use_threat { available_indices(&self.threat_nodes) } else { available_indices(&self.healthy_nodes) };
        if av.len() == 0 {
            return None;
        }
        let k = self.round_robin_index % av.len();
        let pos = av[k];
        proof {
            let nodes = if use_threat { self.threat_nodes@ } else { self.healthy_nodes@ };
            lemma_avail_bounds(nodes);
        }
        let node = if use_threat { copy_node(&self.threat_nodes[pos]) } else { copy_node(&self.healthy_nodes[pos]) };
        self.round_robin_index = (self.round_robin_index % av.len() + 1) % av.len();
        proof {
            let n = av@.len() as int;
            let x = old(self).round_robin_index as int;
            assert((x % n + 1) % n == (x + 1) % n) by (nonlinear_arith)
                requires n > 0, x >= 0;
        }
        Some(node)
    }

    fn fill_first(&mut self, use_threat: bool) -> (r: Option<BackendNode>)
        ensures
            final(self).healthy_nodes == old(self).healthy_nodes,
            final(self).threat_nodes == old(self).threat_nodes,
            final(self).healthy_strategy == old(self).healthy_strategy,
            final(self).threat_strategy == old(self).threat_strategy,
            final(self).round_robin_index == old(self).round_robin_index,
            ({
                let nodes = if use_threat { old(self).threat_nodes@ } else { old(self).healthy_nodes@ };
                let p = fill_first_pick(nodes, old(self).fill_first_index);
                &&& final(self).fill_first_index == p.1
                &&& match p.0 { Some(i) => r == Some(nodes[i]), None => r is None }
            }),
    {
        let av = if use_threat { available_indices(&self.threat_nodes) } else { available_indices(&self.healthy_nodes) };
        if av.len() == 0 {
            return None;
        }
        proof {
            let nodes = if use_threat { self.threat_nodes@ } else { self.healthy_nodes@ };
            lemma_avail_bounds(nodes);
        }
        if self.fill_first_index >= av.len() {
            self.fill_first_index = 0;
        }
        let pos = av[self.fill_first_index];
        let node = if use_threat { copy_node(&self.threat_nodes[pos]) } else { copy_node(&self.healthy_nodes[pos]) };
        Some(node)
    }

    fn least_connections(&self, use_threat: bool) -> (r: Option<BackendNode>)
        ensures
            ({
                let nodes = if use_threat { self.threat_nodes@ } else { self.healthy_nodes@ };
                match least_connections_pick(nodes) { Some(i) => r == Some(nodes[i]), None => r is None }
            }),
    {
        let nodes = if use_threat { &self.threat_nodes } else { &self.healthy_nodes };
        let mut best: Option<usize> = None;
        let mut i: usize = 0;
        while i < nodes.len()
            invariant
                i <= nodes@.len(),
                match best { Some(b) => least_connections_pick(nodes@.take(i as int)) == Some(b as int) && b < i, None => least_connections_pick(nodes@.take(i as int)) is None },
            decreases nodes@.len() - i,
        {
            proof {
                assert(nodes@.take(i + 1).drop_last() =~= nodes@.take(i as int));
                assert(nodes@.take(i + 1)[i as int] == nodes@[i as int]);
                match best {
                    Some(b) => { assert(nodes@.take(i + 1)[b as int] == nodes@[b as int]); assert(nodes@.take(i as int)[b as int] == nodes@[b as int]); },
                    None => {},
                }
            }
            if nodes[i].can_accept() {
                match best {
                    None => { best = Some(i); },
                    Some(b) => {
                        if nodes[i].active_connections < nodes[b].active_connections {
                            best = Some(i);
                        }
                    },
                }
            }
            i = i + 1;
        }
        proof {
            assert(nodes@.take(nodes@.len() as int) =~= nodes@);
        }
        match best {
            Some(b) => Some(copy_node(&nodes[b])),
            None => None,
        }
    }

    fn least_populated_ordered(&self, use_threat: bool) -> (r: Option<BackendNode>)
        ensures
            ({
                let nodes = if use_threat { self.threat_nodes@ } else { self.healthy_nodes@ };
                match least_populated_pick(nodes) { Some(i) => r == Some(nodes[i]), None => r is None }
            }),
    {
        let nodes = if use_threat { &self.threat_nodes } else { &self.healthy_nodes };
        let mut best: Option<usize> = None;
        let mut i: usize = 0;
        while i < nodes.len()
            invariant
                i <= nodes@.len(),
                match best { Some(b) => least_populated_pick(nodes@.take(i as int)) == Some(b as int) && b < i, None => least_populated_pick(nodes@.take(i as int)) is None },
            decreases nodes@.len() - i,
        {
            proof {
                assert(nodes@.take(i + 1).drop_last() =~= nodes@.take(i as int));
                assert(nodes@.take(i + 1)[i as int] == nodes@[i as int]);
                match best {
                    Some(b) => { assert(nodes@.take(i + 1)[b as int] == nodes@[b as int]); assert(nodes@.take(i as int)[b as int] == nodes@[b as int]); },
                    None => {},
                }
            }
            if nodes[i].can_accept() {
                match best {
                    None => { best = Some(i); },
                    Some(b) => {
                        let a = nodes[i].active_connections;
                        let c = nodes[b].active_connections;
                        if a < c || (a == c && name_before(&nodes[i].name, &nodes[b].name)) {
                            best = Some(i);
                        }
                    },
                }
            }
            i = i + 1;
        }
        proof {
            assert(nodes@.take(nodes@.len() as int) =~= nodes@);
        }
        match best {
            Some(b) => Some(copy_node(&nodes[b])),
            None => None,
        }
    }

    /// The node a draw `r` picks among the nodes with room (see `weighted_pick`).
    pub fn pick_weighted(nodes: &Vec<BackendNode>, r: u32) -> (n: Option<BackendNode>)
        ensures
            match weighted_pick(nodes@, avail(nodes@), r as int) { Some(i) => n == Some(nodes@[i]), None => n is None },
    {
        let av = available_indices(nodes);
        let ghost avs = avail(nodes@);
        proof {
            lemma_avail_bounds(nodes@);
            assert(avs.skip(0) =~= avs);
        }
        let mut rest: u32 = r;
        let mut j: usize = 0;
        while j < av.len()
            invariant
                avs == avail(nodes@),
                av@.len() == avs.len(),
                forall|k: int| 0 <= k < av@.len() ==> #[trigger] av@[k] as int == avs[k],
                forall|k: int| 0 <= k < avs.len() ==> 0 <= #[trigger] avs[k] < nodes@.len(),
                j <= av@.len(),
                weighted_pick(nodes@, avs, r as int) == weighted_pick(nodes@, avs.skip(j as int), rest as int),
            decreases av@.len() - j,
        {
            let pos = av[j];
            let w = nodes[pos].weight;
            proof {
                assert(avs.skip(j as int)[0] == avs[j as int]);
                assert(avs.skip(j as int).drop_first() =~= avs.skip(j + 1));
            }
            if rest < w {
                return Some(copy_node(&nodes[pos]));
            }
            rest = rest - w;
            j = j + 1;
        }
        proof {
            assert(avs.skip(j as int).len() == 0);
        }
        None
    }

    /// Picks a backend for a tier: the threat pool serves tiers that require
    /// the CAPTCHA gateway, the healthy pool the others, each with its own strategy.
    /// Nodes without room are never picked.
    pub fn select_backend(&mut self, trust_tier: TrustTier) -> (r: Option<BackendNode>)
        requires
            old(self).weights_ok(trust_tier),
        ensures
            final(self).healthy_nodes == old(self).healthy_nodes,
            final(self).threat_nodes == old(self).threat_nodes,
            final(self).healthy_strategy == old(self).healthy_strategy,
            final(self).threat_strategy == old(self).threat_strategy,
            ({
                let nodes = old(self).pool(trust_tier);
                let s = old(self).strategy(trust_tier);
                &&& (s != RoutingStrategy::RoundRobin ==> final(self).round_robin_index == old(self).round_robin_index)
                &&& (s != RoutingStrategy::FillFirst ==> final(self).fill_first_index == old(self).fill_first_index)
                &&& (nodes.len() == 0 ==> r is None)
                &&& (nodes.len() > 0 && s == RoutingStrategy::RoundRobin ==> {
                    let p = round_robin_pick(nodes, old(self).round_robin_index);
                    &&& final(self).round_robin_index == p.1
                    &&& match p.0 { Some(i) => r == Some(nodes[i]), None => r is None }
                })
                &&& (nodes.len() > 0 && s == RoutingStrategy::FillFirst ==> {
                    let p = fill_first_pick(nodes, old(self).fill_first_index);
                    &&& final(self).fill_first_index == p.1
                    &&& match p.0 { Some(i) => r == Some(nodes[i]), None => r is None }
                })
                &&& (nodes.len() > 0 && s == RoutingStrategy::LeastConnections ==>
                    match least_connections_pick(nodes) { Some(i) => r == Some(nodes[i]), None => r is None })
                &&& (nodes.len() > 0 && s == RoutingStrategy::LeastPopulatedOrdered ==>
                    match least_populated_pick(nodes) { Some(i) => r == Some(nodes[i]), None => r is None })
                &&& (nodes.len() > 0 && s == RoutingStrategy::WeightedRandom ==> (avail(nodes).len() == 0 ==> r is None)
                    && (avail(nodes).len() > 0 ==> exists|d: u32| #![trigger weighted_pick(nodes, avail(nodes), d as int)]
                        (d as int) < weight_sum(nodes, avail(nodes))
                        && match weighted_pick(nodes, avail(nodes), d as int) { Some(i) => r == Some(nodes[i]), None => r is None }))
            }),
    {
        let use_threat = trust_tier.requires_gate();
        let strategy = if use_threat { self.threat_strategy } else { self.healthy_strategy };
        let empty = if use_threat { self.threat_nodes.len() == 0 } else { self.healthy_nodes.len() == 0 };
        if empty {
            return None;
        }
        match strategy {
            RoutingStrategy::RoundRobin => self.round_robin(use_threat),
            RoutingStrategy::LeastConnections => self.least_connections(use_threat),
            RoutingStrategy::FillFirst => self.fill_first(use_threat),
            RoutingStrategy::LeastPopulatedOrdered => self.least_populated_ordered(use_threat),
            RoutingStrategy::WeightedRandom => {
                let nodes = if use_threat { &self.threat_nodes } else { &self.healthy_nodes };
                let av = available_indices(nodes);
                if av.len() == 0 {
                    return None;
                }
                let total = Self::free_weight(nodes);
                let d = random_below(total);
                Self::pick_weighted(nodes, d)
            },
        }
    }

    /// The total weight of the nodes with room.
    fn free_weight(nodes: &Vec<BackendNode>) -> (t: u32)
        requires
            weight_sum(nodes@, avail(nodes@)) <= u32::MAX,
        ensures
            t as int == weight_sum(nodes@, avail(nodes@)),
    {
        let av = available_indices(nodes);
        let ghost avs = avail(nodes@);
        proof {
            lemma_avail_bounds(nodes@);
            assert(avs.take(0) =~= Seq::<int>::empty());
        }
        let mut t: u32 = 0;
        let mut j: usize = 0;
        while j < av.len()
            invariant
                avs == avail(nodes@),
                av@.len() == avs.len(),
                forall|k: int| 0 <= k < av@.len() ==> #[trigger] av@[k] as int == avs[k],
                forall|k: int| 0 <= k < avs.len() ==> 0 <= #[trigger] avs[k] < nodes@.len(),
                j <= av@.len(),
                t as int == weight_sum(nodes@, avs.take(j as int)),
                weight_sum(nodes@, avs) <= u32::MAX,
            decreases av@.len() - j,
        {
            let pos = av[j];
            proof {
                assert(avs.take(j + 1).drop_last() =~= avs.take(j as int));
                lemma_weight_prefix(nodes@, avs, j as int + 1);
            }
            t = t + nodes[pos].weight;
            j = j + 1;
        }
        proof {
            assert(avs.take(avs.len() as int) =~= avs);
        }
        t
    }

    /// The nodes that serve a tier.
    pub fn get_nodes_for_tier(&self, trust_tier: TrustTier) -> (r: &Vec<BackendNode>)
        ensures
            r@ == self.pool(trust_tier),
    {
        if trust_tier.requires_gate() { &self.threat_nodes } else { &self.healthy_nodes }
    }

    /// Whether some node serving the tier has room.
    pub fn has_available_backend(&self, trust_tier: TrustTier) -> (r: bool)
        ensures
            r == (avail(self.pool(trust_tier)).len() > 0),
    {
        let nodes = self.get_nodes_for_tier(trust_tier);
        let av = available_indices(nodes);
        av.len() > 0
    }
}

proof fn lemma_weight_prefix(nodes: Seq<BackendNode>, av: Seq<int>, k: int)
    requires
        0 <= k <= av.len(),
        forall|i: int| 0 <= i < av.len() ==> 0 <= #[trigger] av[i] < nodes.len(),
    ensures
        weight_sum(nodes, av.take(k)) <= weight_sum(nodes, av),
    decreases av.len() - k,
{
    if k < av.len() {
        lemma_weight_prefix(nodes, av, k + 1);
        assert(av.take(k + 1).drop_last() =~= av.take(k));
    } else {
        assert(av.take(k) =~= av);
    }
}

/// A pick of any strategy is a node of the pool that has room.
pub proof fn law_picks_have_room(nodes: Seq<BackendNode>, index: usize, d: int)
    ensures
        round_robin_pick(nodes, index).0 matches Some(i) ==> 0 <= i < nodes.len() && has_room(nodes[i]),
        fill_first_pick(nodes, index).0 matches Some(i) ==> 0 <= i < nodes.len() && has_room(nodes[i]),
        least_connections_pick(nodes) matches Some(i) ==> 0 <= i < nodes.len() && has_room(nodes[i]),
        least_populated_pick(nodes) matches Some(i) ==> 0 <= i < nodes.len() && has_room(nodes[i]),
        weighted_pick(nodes, avail(nodes), d) matches Some(i) ==> 0 <= i < nodes.len() && has_room(nodes[i]),
{
    lemma_avail_bounds(nodes);
    let av = avail(nodes);
    if av.len() > 0 {
        let n = av.len() as int;
        assert(0 <= index as int % n < n);
    }
    lemma_least_connections_room(nodes);
    lemma_least_populated_room(nodes);
    lemma_weighted_room(nodes, av, d);
}

/// Least-connections routing picks a node with room that no other node with
/// room undercuts in active connections (the first such node, as
/// `min_by_key` does), and picks nothing only when no node has room.
pub proof fn law_least_connections_is_least(nodes: Seq<BackendNode>)
    ensures
        least_connections_pick(nodes) matches Some(i) ==> {
            &&& 0 <= i < nodes.len()
            &&& has_room(nodes[i])
            &&& forall|j: int| 0 <= j < nodes.len() && has_room(#[trigger] nodes[j])
                ==> nodes[i].active_connections <= nodes[j].active_connections
            &&& forall|j: int| 0 <= j < i && has_room(#[trigger] nodes[j])
                ==> nodes[i].active_connections < nodes[j].active_connections
        },
        least_connections_pick(nodes) is None ==> forall|j: int| 0 <= j < nodes.len() ==> !has_room(#[trigger] nodes[j]),
    decreases nodes.len(),
{
    if nodes.len() > 0 {
        let prev = nodes.drop_last();
        let last = nodes.len() - 1;
        law_least_connections_is_least(prev);
        assert forall|j: int| 0 <= j < prev.len() implies #[trigger] prev[j] == nodes[j] by {}
        match least_connections_pick(nodes) {
            Some(i) => {
                assert forall|j: int| 0 <= j < i && has_room(#[trigger] nodes[j])
                    implies nodes[i].active_connections < nodes[j].active_connections by {
                    if j < last {
                        assert(prev[j] == nodes[j]);
                        assert(has_room(prev[j]));
                    }
                    match least_connections_pick(prev) {
                        Some(b) => { assert(prev[b] == nodes[b]); },
                        None => {},
                    }
                }
                assert forall|j: int| 0 <= j < nodes.len() && has_room(#[trigger] nodes[j])
                    implies nodes[i].active_connections <= nodes[j].active_connections by {
                    if j < last {
                        assert(prev[j] == nodes[j]);
                        assert(has_room(prev[j]));
                    }
                    match least_connections_pick(prev) {
                        Some(b) => { assert(prev[b] == nodes[b]); },
                        None => {},
                    }
                }
                match least_connections_pick(prev) {
                    Some(b) => { assert(prev[b] == nodes[b]); },
                    None => {},
                }
            },
            None => {
                assert forall|j: int| 0 <= j < nodes.len() implies !has_room(#[trigger] nodes[j]) by {
                    if j < last {
                        assert(prev[j] == nodes[j]);
                    }
                }
            },
        }
    }
}

proof fn lemma_least_connections_room(nodes: Seq<BackendNode>)
    ensures
        least_connections_pick(nodes) matches Some(i) ==> 0 <= i < nodes.len() && has_room(nodes[i]),
    decreases nodes.len(),
{
    if nodes.len() > 0 {
        lemma_least_connections_room(nodes.drop_last());
        if let Some(b) = least_connections_pick(nodes.drop_last()) {
            assert(nodes.drop_last()[b] == nodes[b]);
        }
    }
}

proof fn lemma_least_populated_room(nodes: Seq<BackendNode>)
    ensures
        least_populated_pick(nodes) matches Some(i) ==> 0 <= i < nodes.len() && has_room(nodes[i]),
    decreases nodes.len(),
{
    if nodes.len() > 0 {
        lemma_least_populated_room(nodes.drop_last());
        if let Some(b) = least_populated_pick(nodes.drop_last()) {
            assert(nodes.drop_last()[b] == nodes[b]);
        }
    }
}

proof fn lemma_weighted_room(nodes: Seq<BackendNode>, av: Seq<int>, d: int)
    requires
        forall|k: int| 0 <= k < av.len() ==> 0 <= #[trigger] av[k] < nodes.len() && has_room(nodes[av[k]]),
    ensures
        weighted_pick(nodes, av, d) matches Some(i) ==> 0 <= i < nodes.len() && has_room(nodes[i]),
    decreases av.len(),
{
    if av.len() > 0 {
        assert(av[0] == av[0]);
        if d >= nodes[av[0]].weight {
            assert forall|k: int| 0 <= k < av.drop_first().len() implies 0 <= #[trigger] av.drop_first()[k] < nodes.len()
                && has_room(nodes[av.drop_first()[k]]) by {
                assert(av.drop_first()[k] == av[k + 1]);
            }
            lemma_weighted_room(nodes, av.drop_first(), d - nodes[av[0]].weight);
        }
    }
}

/// The first node from position `k` on with the given name.
pub open spec fn first_named_from(nodes: Seq<BackendNode>, name: Seq<char>, k: int) -> Option<int>
    decreases nodes.len() - k,
{
    if k < 0 || k >= nodes.len() {
        None
    } else if nodes[k].name@ == name {
        Some(k)
    } else {
        first_named_from(nodes, name, k + 1)
    }
}

/// The first node with the given name.
pub open spec fn first_named(nodes: Seq<BackendNode>, name: Seq<char>) -> Option<int> {
    first_named_from(nodes, name, 0)
}

proof fn lemma_first_named_in_range(nodes: Seq<BackendNode>, name: Seq<char>, k: int)
    requires
        0 <= k,
    ensures
        first_named_from(nodes, name, k) matches Some(i) ==> k <= i < nodes.len() && nodes[i].name@ == name,
    decreases nodes.len() - k,
{
    if k < nodes.len() && nodes[k].name@ != name {
        lemma_first_named_in_range(nodes, name, k + 1);
    }
}

/// A node after one of its connection slots was taken (when it had room).
pub open spec fn slot_taken(n: BackendNode) -> BackendNode {
    BackendNode { active_connections: if has_room(n) { (n.active_connections + 1) as usize } else { n.active_connections }, ..n }
}

/// A node after one of its connection slots was given back (never below zero).
pub open spec fn slot_given_back(n: BackendNode) -> BackendNode {
    BackendNode { active_connections: if n.active_connections > 0 { (n.active_connections - 1) as usize } else { 0 }, ..n }
}

fn find_named(nodes: &Vec<BackendNode>, name: &str) -> (r: Option<usize>)
    ensures
        r matches Some(i) ==> first_named(nodes@, name@) == Some(i as int),
        r is None ==> first_named(nodes@, name@) is None,
{
    let mut i: usize = 0;
    while i < nodes.len()
        invariant
            i <= nodes@.len(),
            first_named(nodes@, name@) == first_named_from(nodes@, name@, i as int),
        decreases nodes@.len() - i,
    {
        if crate::text::str_eq(nodes[i].name.as_str(), name) {
            return Some(i);
        }
        i = i + 1;
    }
    None
}

/// Takes or gives back a slot of the node at `i`.
fn change_slot(nodes: &mut Vec<BackendNode>, i: usize, take: bool) -> (r: bool)
    requires
        i < old(nodes)@.len(),
    ensures
        take ==> r == has_room(old(nodes)@[i as int]) && final(nodes)@ == old(nodes)@.update(i as int, slot_taken(old(nodes)@[i as int])),
        !take ==> r && final(nodes)@ == old(nodes)@.update(i as int, slot_given_back(old(nodes)@[i as int])),
{
    let ghost s0 = nodes@;
    let mut n = nodes.remove(i);
    let r = if take { n.acquire() } else { n.release(); true };
    let ghost nf = n;
    nodes.insert(i, n);
    proof {
        assert(nodes@ =~= s0.update(i as int, nf));
    }
    r
}

impl Router {
    /// Takes a connection slot of the node named `name` in the pool serving
    /// `trust_tier`; true when the node exists and had room.
    pub fn acquire_node(&mut self, trust_tier: TrustTier, name: &str) -> (r: bool)
        ensures
            match first_named(old(self).pool(trust_tier), name@) {
                None => !r && *final(self) == *old(self),
                Some(i) => r == has_room(old(self).pool(trust_tier)[i])
                    && final(self).pool(trust_tier) == old(self).pool(trust_tier).update(i, slot_taken(old(self).pool(trust_tier)[i]))
                    && (tier_requires_gate(trust_tier) ==> final(self).healthy_nodes == old(self).healthy_nodes)
                    && (!tier_requires_gate(trust_tier) ==> final(self).threat_nodes == old(self).threat_nodes),
            },
            final(self).healthy_strategy == old(self).healthy_strategy,
            final(self).threat_strategy == old(self).threat_strategy,
            final(self).round_robin_index == old(self).round_robin_index,
            final(self).fill_first_index == old(self).fill_first_index,
    {
        self.change_named(trust_tier, name, true)
    }

    /// Gives back a connection slot of the node named `name` in the pool
    /// serving `trust_tier`; true when the node exists.
    pub fn release_node(&mut self, trust_tier: TrustTier, name: &str) -> (r: bool)
        ensures
            match first_named(old(self).pool(trust_tier), name@) {
                None => !r && *final(self) == *old(self),
                Some(i) => r
                    && final(self).pool(trust_tier) == old(self).pool(trust_tier).update(i, slot_given_back(old(self).pool(trust_tier)[i]))
                    && (tier_requires_gate(trust_tier) ==> final(self).healthy_nodes == old(self).healthy_nodes)
                    && (!tier_requires_gate(trust_tier) ==> final(self).threat_nodes == old(self).threat_nodes),
            },
            final(self).healthy_strategy == old(self).healthy_strategy,
            final(self).threat_strategy == old(self).threat_strategy,
            final(self).round_robin_index == old(self).round_robin_index,
            final(self).fill_first_index == old(self).fill_first_index,
    {
        self.change_named(trust_tier, name, false)
    }

    fn change_named(&mut self, trust_tier: TrustTier, name: &str, take: bool) -> (r: bool)
        ensures
            match first_named(old(self).pool(trust_tier), name@) {
                None => !r && *final(self) == *old(self),
                Some(i) => r == (!take || has_room(old(self).pool(trust_tier)[i]))
                    && final(self).pool(trust_tier) == old(self).pool(trust_tier).update(i,
                        if take { slot_taken(old(self).pool(trust_tier)[i]) } else { slot_given_back(old(self).pool(trust_tier)[i]) })
                    && (tier_requires_gate(trust_tier) ==> final(self).healthy_nodes == old(self).healthy_nodes)
                    && (!tier_requires_gate(trust_tier) ==> final(self).threat_nodes == old(self).threat_nodes),
            },
            final(self).healthy_strategy == old(self).healthy_strategy,
            final(self).threat_strategy == old(self).threat_strategy,
            final(self).round_robin_index == old(self).round_robin_index,
            final(self).fill_first_index == old(self).fill_first_index,
    {
        let threat = trust_tier.requires_gate();
        let found = if threat { find_named(&self.threat_nodes, name) } else { find_named(&self.healthy_nodes, name) };
        proof {
            lemma_first_named_in_range(self.pool(trust_tier), name@, 0);
        }
        match found {
            None => false,
            Some(i) => {
                if threat {
                    change_slot(&mut self.threat_nodes, i, take)
                } else {
                    change_slot(&mut self.healthy_nodes, i, take)
                }
            },
        }
    }
}

} // verus!
