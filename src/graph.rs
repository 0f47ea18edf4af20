use vstd::prelude::*;

use crate::errors::RouteError;
use crate::keys::OutPoint;
use crate::types::Pubkey;

verus! {

/// A channel edge of the network graph.
#[derive(Clone, Copy, Debug, PartialEq, Eq)]
pub struct ChannelInfo {
    pub out_point: OutPoint,
    pub node1: Pubkey,
    pub node2: Pubkey,
    pub capacity: u128,
    /// Forwarding fee, in millionths of the forwarded amount.
    pub fee_rate: u64,
    pub enabled: bool,
    pub timestamp: u64,
    pub funding_tx_block_number: u64,
    pub funding_tx_index: u32,
}

impl ChannelInfo {
    /// The channel's key in the graph.
    pub fn out_point(&self) -> (r: OutPoint)
        ensures
            r == self.out_point,
    {
        self.out_point
    }
}

/// A node of the network graph.
#[derive(Clone, Debug, PartialEq, Eq)]
pub struct NodeInfo {
    pub node_id: Pubkey,
    pub announced_addresses: Vec<Vec<u8>>,
    pub features: u64,
    pub timestamp: u64,
}


/// Two out-points name the same funding output.
pub open spec fn same_outpoint(a: OutPoint, b: OutPoint) -> bool {
    a.tx_hash@ == b.tx_hash@ && a.index == b.index
}

pub open spec fn has_channel(chs: Seq<ChannelInfo>, op: OutPoint) -> bool {
    exists|i: int| 0 <= i < chs.len() && same_outpoint(#[trigger] chs[i].out_point, op)
}

/// The position of the channel with out-point `op`.
pub open spec fn channel_index(chs: Seq<ChannelInfo>, op: OutPoint) -> int {
    choose|i: int| 0 <= i < chs.len() && same_outpoint(#[trigger] chs[i].out_point, op)
}

pub open spec fn has_node(ns: Seq<NodeInfo>, id: Pubkey) -> bool {
    exists|i: int| 0 <= i < ns.len() && (#[trigger] ns[i]).node_id@ == id@
}

/// The position of the node with id `id`.
pub open spec fn node_index(ns: Seq<NodeInfo>, id: Pubkey) -> int {
    choose|i: int| 0 <= i < ns.len() && (#[trigger] ns[i]).node_id@ == id@
}

/// The fee, in the channel's unit, for forwarding `amount` at `rate`
/// millionths.
pub open spec fn fee_for(rate: u64, amount: int) -> int {
    amount * rate / 1_000_000
}

/// The forwarding fee for `amount` at `rate` millionths; `None` where the
/// product does not fit.
pub fn forwarding_fee(rate: u64, amount: u128) -> (r: Option<u128>)
    ensures
        r is Some <==> amount * rate <= u128::MAX,
        r is Some ==> r->Some_0 == fee_for(rate, amount as int),
{
    match amount.checked_mul(rate as u128) {
        Some(p) => Some(p / 1_000_000),
        None => None,
    }
}

/// One hop of a route: `amount` crosses the channel from `from` to `to`, and
/// `fee` is what `from` charges for forwarding it (nothing on the first hop,
/// which the payer itself sends).
#[derive(Clone, Copy, Debug, PartialEq, Eq)]
pub struct RouteHop {
    pub channel_outpoint: OutPoint,
    pub from: Pubkey,
    pub to: Pubkey,
    pub amount: u128,
    pub fee: u128,
}

/// Channel `c` carries hop `h` at position `pos`: it is enabled, joins the
/// hop's two ends, has room for the amount, and charges the hop's fee.
pub open spec fn channel_carries(c: ChannelInfo, h: RouteHop, pos: int) -> bool {
    &&& c.enabled
    &&& same_outpoint(c.out_point, h.channel_outpoint)
    &&& ((c.node1@ == h.from@ && c.node2@ == h.to@) || (c.node2@ == h.from@ && c.node1@ == h.to@))
    &&& c.capacity >= h.amount
    &&& h.fee == (if pos == 0 {
        0
    } else {
        fee_for(c.fee_rate, h.amount as int)
    })
}

/// The payer's total fee along a route: what leaves it minus what arrives.
pub open spec fn route_fee(route: Seq<RouteHop>) -> int {
    route[0].amount - route.last().amount
}

/// `route` delivers `amount` from `source` to `target` over channels of
/// `chs`, each hop forwarding what the rest of the route needs, for at most
/// `max_fee`.
pub open spec fn route_valid(
    chs: Seq<ChannelInfo>,
    source: Pubkey,
    target: Pubkey,
    amount: u128,
    max_fee: u128,
    route: Seq<RouteHop>,
) -> bool {
    &&& route.len() >= 1
    &&& route[0].from@ == source@
    &&& route.last().to@ == target@
    &&& route.last().amount == amount
    &&& forall|i: int|
        0 <= i < route.len() - 1 ==> (#[trigger] route[i]).to@ == route[i + 1].from@
            && route[i].amount == route[i + 1].amount + route[i + 1].fee
    &&& forall|i: int|
        0 <= i < route.len() ==> exists|j: int|
            0 <= j < chs.len() && channel_carries(chs[j], #[trigger] route[i], i)
    &&& route_fee(route) <= max_fee
}

/// The in-memory network graph: channels keyed by out-point and nodes keyed
/// by public key.
pub struct NetworkGraph {
    pub channels: Vec<ChannelInfo>,
    pub nodes: Vec<NodeInfo>,
}

impl NetworkGraph {
    /// Out-points and node ids are unique.
    pub open spec fn wf(&self) -> bool {
        &&& forall|i: int, j: int|
            0 <= i < j < self.channels@.len() ==> !same_outpoint(
                #[trigger] self.channels@[i].out_point,
                #[trigger] self.channels@[j].out_point,
            )
        &&& forall|i: int, j: int|
            0 <= i < j < self.nodes@.len() ==> (#[trigger] self.nodes@[i]).node_id@
                != (#[trigger] self.nodes@[j]).node_id@
    }

    pub fn new() -> (r: NetworkGraph)
        ensures
            r.wf(),
            r.channels@.len() == 0,
            r.nodes@.len() == 0,
    {
        NetworkGraph { channels: Vec::new(), nodes: Vec::new() }
    }

    /// The position of the channel with out-point `op`.
    pub fn find_channel(&self, op: &OutPoint) -> (r: Option<usize>)
        requires
            self.wf(),
        ensures
            r is None <==> !has_channel(self.channels@, *op),
            r is Some ==> r->Some_0 == channel_index(self.channels@, *op),
    {
        let mut i: usize = 0;
        while i < self.channels.len()
            invariant
                0 <= i <= self.channels@.len(),
                self.wf(),
                forall|j: int|
                    0 <= j < i ==> !same_outpoint(#[trigger] self.channels@[j].out_point, *op),
            decreases self.channels@.len() - i,
        {
            if self.channels[i].out_point.equals(op) {
                proof {
                    let k = channel_index(self.channels@, *op);
                    assert(same_outpoint(self.channels@[i as int].out_point, *op));
                    if k != i {
                        if k < i {
                            assert(!same_outpoint(self.channels@[k].out_point, *op));
                        } else {
                            assert(!same_outpoint(
                                self.channels@[i as int].out_point,
                                self.channels@[k].out_point,
                            ));
                        }
                    }
                }
                return Some(i);
            }
            i = i + 1;
        }
        None
    }

    /// The position of the node with id `id`.
    pub fn find_node(&self, id: &Pubkey) -> (r: Option<usize>)
        requires
            self.wf(),
        ensures
            r is None <==> !has_node(self.nodes@, *id),
            r is Some ==> r->Some_0 == node_index(self.nodes@, *id),
    {
        let mut i: usize = 0;
        while i < self.nodes.len()
            invariant
                0 <= i <= self.nodes@.len(),
                self.wf(),
                forall|j: int| 0 <= j < i ==> (#[trigger] self.nodes@[j]).node_id@ != id@,
            decreases self.nodes@.len() - i,
        {
            if self.nodes[i].node_id.equals(id) {
                proof {
                    let k = node_index(self.nodes@, *id);
                    assert(self.nodes@[i as int].node_id@ == id@);
                    if k != i {
                        if k < i {
                            assert(self.nodes@[k].node_id@ != id@);
                        } else {
                            assert(self.nodes@[i as int].node_id@ != self.nodes@[k].node_id@);
                        }
                    }
                }
                return Some(i);
            }
            i = i + 1;
        }
        None
    }

    /// Adds or updates a channel, last writer wins: a record is taken only
    /// when its out-point is new or its timestamp is strictly greater than
    /// the stored one. Returns whether it was taken.
    pub fn process_channel_update(&mut self, info: ChannelInfo) -> (r: bool)
        requires
            old(self).wf(),
        ensures
            final(self).wf(),
            final(self).nodes@ == old(self).nodes@,
            !has_channel(old(self).channels@, info.out_point) ==> r && final(self).channels@ == old(
                self,
            ).channels@.push(info),
            has_channel(old(self).channels@, info.out_point) ==> {
                let k = channel_index(old(self).channels@, info.out_point);
                &&& r == (old(self).channels@[k].timestamp < info.timestamp)
                &&& r ==> final(self).channels@ == old(self).channels@.update(k, info)
                &&& !r ==> final(self).channels@ == old(self).channels@
            },
    {
        match self.find_channel(&info.out_point) {
            Some(k) => {
                if self.channels[k].timestamp < info.timestamp {
                    let ghost old_chs = self.channels@;
                    self.channels.set(k, info);
                    proof {
                        assert forall|i: int, j: int|
                            0 <= i < j < self.channels@.len() implies !same_outpoint(
                                #[trigger] self.channels@[i].out_point,
                                #[trigger] self.channels@[j].out_point,
                            ) by {
                            assert(same_outpoint(old_chs[k as int].out_point, info.out_point));
                            if i != k && j != k {
                                assert(!same_outpoint(old_chs[i].out_point, old_chs[j].out_point));
                            } else if i == k {
                                assert(!same_outpoint(old_chs[i].out_point, old_chs[j].out_point));
                            } else {
                                assert(!same_outpoint(old_chs[i].out_point, old_chs[j].out_point));
                            }
                        }
                    }
                    true
                } else {
                    false
                }
            },
            None => {
                let ghost old_chs = self.channels@;
                self.channels.push(info);
                proof {
                    assert forall|i: int, j: int|
                        0 <= i < j < self.channels@.len() implies !same_outpoint(
                            #[trigger] self.channels@[i].out_point,
                            #[trigger] self.channels@[j].out_point,
                        ) by {
                        if j == old_chs.len() {
                            assert(!same_outpoint(old_chs[i].out_point, info.out_point));
                        }
                    }
                }
                true
            },
        }
    }

    /// Adds or updates a node, last writer wins as for channels. Returns
    /// whether the record was taken.
    pub fn process_node_announcement(&mut self, info: NodeInfo) -> (r: bool)
        requires
            old(self).wf(),
        ensures
            final(self).wf(),
            final(self).channels@ == old(self).channels@,
            !has_node(old(self).nodes@, info.node_id) ==> r && final(self).nodes@ == old(
                self,
            ).nodes@.push(info),
            has_node(old(self).nodes@, info.node_id) ==> {
                let k = node_index(old(self).nodes@, info.node_id);
                &&& r == (old(self).nodes@[k].timestamp < info.timestamp)
                &&& r ==> final(self).nodes@ == old(self).nodes@.update(k, info)
                &&& !r ==> final(self).nodes@ == old(self).nodes@
            },
    {
        let ghost inf = info;
        match self.find_node(&info.node_id) {
            Some(k) => {
                if self.nodes[k].timestamp < info.timestamp {
                    let ghost old_ns = self.nodes@;
                    self.nodes.set(k, info);
                    proof {
                        assert forall|i: int, j: int|
                            0 <= i < j < self.nodes@.len() implies (#[trigger] self.nodes@[i]).node_id@
                                != (#[trigger] self.nodes@[j]).node_id@ by {
                            assert(old_ns[k as int].node_id@ == inf.node_id@);
                            assert(old_ns[i].node_id@ != old_ns[j].node_id@);
                        }
                    }
                    true
                } else {
                    false
                }
            },
            None => {
                let ghost old_ns = self.nodes@;
                self.nodes.push(info);
                proof {
                    assert forall|i: int, j: int|
                        0 <= i < j < self.nodes@.len() implies (#[trigger] self.nodes@[i]).node_id@
                            != (#[trigger] self.nodes@[j]).node_id@ by {
                        if j == old_ns.len() {
                            assert(old_ns[i].node_id@ != inf.node_id@);
                        }
                    }
                }
                true
            },
        }
    }
}

/// The position of `pk` in `keys`.
fn index_in(keys: &Vec<Pubkey>, pk: &Pubkey) -> (r: Option<usize>)
    ensures
        r is Some ==> r->Some_0 < keys@.len() && keys@[r->Some_0 as int]@ == pk@,
{
    let mut i: usize = 0;
    while i < keys.len()
        invariant
            0 <= i <= keys@.len(),
        decreases keys@.len() - i,
    {
        if keys[i].equals(pk) {
            return Some(i);
        }
        i = i + 1;
    }
    None
}

impl NetworkGraph {
    /// Checks a candidate route hop by hop against the graph.
    fn check_route(
        &self,
        source: &Pubkey,
        target: &Pubkey,
        amount: u128,
        max_fee_amount: u128,
        route: &Vec<RouteHop>,
    ) -> (r: bool)
        requires
            self.wf(),
        ensures
            r ==> route_valid(self.channels@, *source, *target, amount, max_fee_amount, route@),
    {
        let n = route.len();
        if n == 0 {
            return false;
        }
        if !route[0].from.equals(source) || !route[n - 1].to.equals(target) || route[n - 1].amount
            != amount {
            return false;
        }
        let mut i: usize = 0;
        while i < n
            invariant
                n == route@.len(),
                0 <= i <= n,
                self.wf(),
                forall|k: int|
                    0 <= k < i ==> exists|j: int|
                        0 <= j < self.channels@.len() && channel_carries(
                            self.channels@[j],
                            #[trigger] route@[k],
                            k,
                        ),
                forall|k: int|
                    0 <= k < i && k < n - 1 ==> (#[trigger] route@[k]).to@ == route@[k + 1].from@
                        && route@[k].amount == route@[k + 1].amount + route@[k + 1].fee,
            decreases n - i,
        {
            let h = route[i];
            let j = match self.find_channel(&h.channel_outpoint) {
                Some(j) => j,
                None => {
                    return false;
                },
            };
            let c = self.channels[j];
            if !c.enabled || c.capacity < h.amount {
                return false;
            }
            if !((c.node1.equals(&h.from) && c.node2.equals(&h.to)) || (c.node2.equals(&h.from)
                && c.node1.equals(&h.to))) {
                return false;
            }
            if i == 0 {
                if h.fee != 0 {
                    return false;
                }
            } else {
                match forwarding_fee(c.fee_rate, h.amount) {
                    Some(f) => {
                        if f != h.fee {
                            return false;
                        }
                    },
                    None => {
                        return false;
                    },
                }
            }
            if i + 1 < n {
                let g = route[i + 1];
                if !h.to.equals(&g.from) || g.amount > u128::MAX - g.fee || h.amount != g.amount
                    + g.fee {
                    return false;
                }
            }
            proof {
                assert(has_channel(self.channels@, h.channel_outpoint));
                assert(channel_carries(self.channels@[j as int], route@[i as int], i as int));
            }
            i = i + 1;
        }
        if route[0].amount < amount || route[0].amount - amount > max_fee_amount {
            return false;
        }
        true
    }

    /// Finds a route that delivers `amount` from `source` to `target` for at
    /// most `max_fee_amount` in fees. Disabled channels and those too small
    /// for the amount they would forward are left out; among the rest the
    /// route with the lowest total fee is sought, the first found winning a
    /// tie. Every route returned is checked against the graph.
    pub fn find_route(
        &self,
        source: &Pubkey,
        target: &Pubkey,
        amount: u128,
        max_fee_amount: u128,
    ) -> (r: Result<Vec<RouteHop>, RouteError>)
        requires
            self.wf(),
        ensures
            (amount == 0 || source@ == target@) <==> r == Err::<Vec<RouteHop>, RouteError>(
                RouteError::InvalidParameter,
            ),
            r is Ok ==> route_valid(
                self.channels@,
                *source,
                *target,
                amount,
                max_fee_amount,
                r->Ok_0@,
            ),
    {
        if amount == 0 || source.equals(target) {
            return Err(RouteError::InvalidParameter);
        }
        self.search_route(source, target, amount, max_fee_amount)
    }

    fn search_route(
        &self,
        source: &Pubkey,
        target: &Pubkey,
        amount: u128,
        max_fee_amount: u128,
    ) -> (r: Result<Vec<RouteHop>, RouteError>)
        requires
            self.wf(),
        ensures
            r is Err ==> r->Err_0 != RouteError::InvalidParameter,
            r is Ok ==> route_valid(
                self.channels@,
                *source,
                *target,
                amount,
                max_fee_amount,
                r->Ok_0@,
            ),
    {
        let nch = self.channels.len();
        // Every endpoint of a channel, once.
        let mut keys: Vec<Pubkey> = Vec::new();
        let mut ci: usize = 0;
        while ci < nch
            invariant
                nch == self.channels@.len(),
                0 <= ci <= nch,
            decreases nch - ci,
        {
            let c = self.channels[ci];
            if index_in(&keys, &c.node1).is_none() {
                keys.push(c.node1);
            }
            if index_in(&keys, &c.node2).is_none() {
                keys.push(c.node2);
            }
            ci = ci + 1;
        }
        let n = keys.len();
        let ti = match index_in(&keys, target) {
            Some(t) => t,
            None => {
                return Err(RouteError::NoRoute);
            },
        };
        let si = match index_in(&keys, source) {
            Some(t) => t,
            None => {
                return Err(RouteError::NoRoute);
            },
        };
        // cost[x]: what must reach node x for the rest of the route to
        // deliver `amount`; at the source, what it sends.
        let mut known: Vec<bool> = vec![false; n];
        let mut cost: Vec<u128> = vec![0u128; n];
        let mut next: Vec<usize> = vec![0usize; n];
        known.set(ti, true);
        cost.set(ti, amount);
        let mut round: usize = 0;
        while round < n
            invariant
                nch == self.channels@.len(),
                n == keys@.len(),
                known@.len() == n,
                cost@.len() == n,
                next@.len() == n,
                si < n,
                ti < n,
            decreases n - round,
        {
            let mut ci: usize = 0;
            while ci < nch
                invariant
                    nch == self.channels@.len(),
                    n == keys@.len(),
                    known@.len() == n,
                    cost@.len() == n,
                    next@.len() == n,
                    si < n,
                    ti < n,
                    0 <= ci <= nch,
                decreases nch - ci,
            {
                let c = self.channels[ci];
                let mut dir: usize = 0;
                while dir < 2
                    invariant
                        n == keys@.len(),
                        known@.len() == n,
                        cost@.len() == n,
                        next@.len() == n,
                        si < n,
                        ti < n,
                        0 <= dir <= 2,
                    decreases 2 - dir,
                {
                    let (u, v) = if dir == 0 {
                        (c.node1, c.node2)
                    } else {
                        (c.node2, c.node1)
                    };
                    if let (Some(iu), Some(iv)) = (index_in(&keys, &u), index_in(&keys, &v)) {
                        if c.enabled && known[iv] && iv != si && iu != ti && c.capacity >= cost[iv] {
                            let a = cost[iv];
                            let cand = if iu == si {
                                Some(a)
                            } else {
                                match forwarding_fee(c.fee_rate, a) {
                                    Some(f) => a.checked_add(f),
                                    None => None,
                                }
                            };
                            if let Some(x) = cand {
                                if !known[iu] || x < cost[iu] {
                                    known.set(iu, true);
                                    cost.set(iu, x);
                                    next.set(iu, ci);
                                }
                            }
                        }
                    }
                    dir = dir + 1;
                }
                ci = ci + 1;
            }
            round = round + 1;
        }
        if !known[si] {
            return Err(RouteError::NoRoute);
        }
        // Follow the chosen channels from the source to the target.
        let mut path: Vec<(usize, usize, usize)> = Vec::new();
        let mut cur: usize = si;
        let mut steps: usize = 0;
        while cur != ti && steps < n
            invariant
                nch == self.channels@.len(),
                n == keys@.len(),
                known@.len() == n,
                next@.len() == n,
                cur < n,
                forall|k: int|
                    0 <= k < path@.len() ==> (#[trigger] path@[k]).0 < nch && path@[k].1 < n
                        && path@[k].2 < n,
            decreases n - steps,
        {
            let c_idx = next[cur];
            if c_idx >= nch {
                return Err(RouteError::NoRoute);
            }
            let c = self.channels[c_idx];
            let other = if keys[cur].equals(&c.node1) {
                c.node2
            } else if keys[cur].equals(&c.node2) {
                c.node1
            } else {
                return Err(RouteError::NoRoute);
            };
            let oi = match index_in(&keys, &other) {
                Some(o) => o,
                None => {
                    return Err(RouteError::NoRoute);
                },
            };
            path.push((c_idx, cur, oi));
            cur = oi;
            steps = steps + 1;
        }
        if cur != ti || path.len() == 0 {
            return Err(RouteError::NoRoute);
        }
        // What each hop carries, from the last hop back to the first.
        let m = path.len();
        let mut amts: Vec<u128> = vec![0u128; m];
        let mut amt: u128 = amount;
        let mut j: usize = m;
        while j > 0
            invariant
                nch == self.channels@.len(),
                m == path@.len(),
                amts@.len() == m,
                0 <= j <= m,
                forall|k: int| 0 <= k < path@.len() ==> (#[trigger] path@[k]).0 < nch,
            decreases j,
        {
            j = j - 1;
            amts.set(j, amt);
            if j > 0 {
                let rate = self.channels[path[j].0].fee_rate;
                let fee = match forwarding_fee(rate, amt) {
                    Some(f) => f,
                    None => {
                        return Err(RouteError::NoRoute);
                    },
                };
                amt = match amt.checked_add(fee) {
                    Some(x) => x,
                    None => {
                        return Err(RouteError::NoRoute);
                    },
                };
            }
        }
        let mut route: Vec<RouteHop> = Vec::new();
        let mut i: usize = 0;
        while i < m
            invariant
                nch == self.channels@.len(),
                n == keys@.len(),
                m == path@.len(),
                m > 0,
                amts@.len() == m,
                0 <= i <= m,
                route@.len() == i,
                forall|k: int|
                    0 <= k < path@.len() ==> (#[trigger] path@[k]).0 < nch && path@[k].1 < n
                        && path@[k].2 < n,
            decreases m - i,
        {
            let (c_idx, from, to) = path[i];
            let c = self.channels[c_idx];
            let fee = if i == 0 {
                0
            } else {
                match forwarding_fee(c.fee_rate, amts[i]) {
                    Some(f) => f,
                    None => {
                        return Err(RouteError::NoRoute);
                    },
                }
            };
            route.push(
                RouteHop {
                    channel_outpoint: c.out_point,
                    from: keys[from],
                    to: keys[to],
                    amount: amts[i],
                    fee,
                },
            );
            i = i + 1;
        }
        if route[0].amount < amount || route[0].amount - amount > max_fee_amount {
            return Err(RouteError::FeeExceedsMax);
        }
        if !self.check_route(source, target, amount, max_fee_amount, &route) {
            return Err(RouteError::NoRoute);
        }
        Ok(route)
    }
}

} // verus!
