use vstd::prelude::*;

use crate::channel::ChannelActorState;
use crate::errors::InvoiceError;
use crate::graph::{ChannelInfo, NodeInfo};
use crate::invoice::CkbInvoice;
use crate::keys::{
    bytes_lt, key_lt, lemma_key_lt_common_prefix, lemma_key_lt_irrefl, lemma_key_lt_total, lemma_key_lt_trans,
    channel_actor_state_key, channel_announcement_index_key, channel_info_key,
    channel_update_index_key, copy_range, invoice_key, invoice_preimage_key, node_announcement_index_key,
    node_info_key, payment_session_key, peer_addr_key, peer_channel_key, prefixed, prefixed_key, read_hash, be_u32, be_u64,
    OutPoint, CHANNEL_ACTOR_STATE_PREFIX, CHANNEL_ANNOUNCEMENT_INDEX_PREFIX, CHANNEL_INFO_PREFIX,
    CHANNEL_UPDATE_INDEX_PREFIX, CKB_INVOICE_PREFIX, CKB_INVOICE_PREIMAGE_PREFIX, NODE_ANNOUNCEMENT_INDEX_PREFIX,
    NODE_INFO_PREFIX, PAYMENT_SESSION_PREFIX, PEER_ID_CHANNEL_ID_PREFIX, PEER_ID_MULTIADDR_PREFIX,
};
use crate::payment::PaymentSession;
use crate::types::{bytes_eq, ChannelState, Hash256, PeerId, Pubkey};

verus! {

/// A record as the store holds it.
#[derive(Debug, PartialEq, Eq)]
pub enum StoredValue {
    ChannelActorState(ChannelActorState),
    Invoice(CkbInvoice),
    Preimage(Hash256),
    ChannelPhase(ChannelState),
    ChannelInfo(ChannelInfo),
    NodeInfo(NodeInfo),
    /// An index entry pointing at a graph channel.
    ChannelRef(OutPoint),
    /// An index entry pointing at a graph node.
    NodeRef(Pubkey),
    Multiaddr(Vec<u8>),
    PaymentSession(PaymentSession),
}

/// One write of a batch.
#[derive(Debug)]
pub enum BatchOp {
    Put(Vec<u8>, StoredValue),
    Delete(Vec<u8>),
}

/// The effect of one write on the store's contents.
pub open spec fn apply_op(m: Map<Seq<u8>, StoredValue>, op: BatchOp) -> Map<Seq<u8>, StoredValue> {
    match op {
        BatchOp::Put(k, v) => m.insert(k@, v),
        BatchOp::Delete(k) => m.remove(k@),
    }
}

/// The effect of a sequence of writes, applied in order.
pub open spec fn apply_ops(m: Map<Seq<u8>, StoredValue>, ops: Seq<BatchOp>) -> Map<
    Seq<u8>,
    StoredValue,
>
    decreases ops.len(),
{
    if ops.len() == 0 {
        m
    } else {
        apply_ops(apply_op(m, ops[0]), ops.subrange(1, ops.len() as int))
    }
}

/// `k` starts with `p`.
pub open spec fn has_prefix(k: Seq<u8>, p: Seq<u8>) -> bool {
    p.len() <= k.len() && k.subrange(0, p.len() as int) == p
}

/// Checks whether `k` starts with `p`.
pub fn starts_with(k: &[u8], p: &[u8]) -> (r: bool)
    ensures
        r == has_prefix(k@, p@),
{
    if p.len() > k.len() {
        return false;
    }
    let mut i: usize = 0;
    while i < p.len()
        invariant
            0 <= i <= p@.len() <= k@.len(),
            forall|j: int| 0 <= j < i ==> k@[j] == p@[j],
        decreases p@.len() - i,
    {
        if k[i] != p[i] {
            assert(k@.subrange(0, p@.len() as int)[i as int] != p@[i as int]);
            return false;
        }
        i = i + 1;
    }
    assert(k@.subrange(0, p@.len() as int) =~= p@);
    true
}

/// A typed record to be written under the key layout.
#[derive(Debug)]
pub enum KeyValue {
    ChannelActorState(Hash256, ChannelActorState),
    CkbInvoice(Hash256, CkbInvoice),
    CkbInvoicePreimage(Hash256, Hash256),
    PeerIdChannelId((PeerId, Hash256), ChannelState),
    PeerIdMultiAddr(PeerId, Vec<u8>),
    NodeInfo(Pubkey, NodeInfo),
    ChannelInfo(OutPoint, ChannelInfo),
}

/// The effect of writing `kv`: its record under its key, and for graph
/// records their index entries too.
pub open spec fn kv_effect(m: Map<Seq<u8>, StoredValue>, kv: KeyValue) -> Map<Seq<u8>, StoredValue> {
    match kv {
        KeyValue::ChannelActorState(id, st) => m.insert(
            prefixed(CHANNEL_ACTOR_STATE_PREFIX, id@),
            StoredValue::ChannelActorState(st),
        ),
        KeyValue::CkbInvoice(h, inv) => m.insert(prefixed(CKB_INVOICE_PREFIX, h@), StoredValue::Invoice(inv)),
        KeyValue::CkbInvoicePreimage(h, p) => m.insert(
            prefixed(CKB_INVOICE_PREIMAGE_PREFIX, h@),
            StoredValue::Preimage(p),
        ),
        KeyValue::PeerIdChannelId((p, id), phase) => m.insert(
            prefixed(PEER_ID_CHANNEL_ID_PREFIX, p@ + id@),
            StoredValue::ChannelPhase(phase),
        ),
        KeyValue::PeerIdMultiAddr(p, a) => m.insert(
            prefixed(PEER_ID_MULTIADDR_PREFIX, p@),
            StoredValue::Multiaddr(a),
        ),
        KeyValue::NodeInfo(id, n) => m.insert(
            prefixed(NODE_ANNOUNCEMENT_INDEX_PREFIX, be_u64(n.timestamp)),
            StoredValue::NodeRef(id),
        ).insert(prefixed(NODE_INFO_PREFIX, id@), StoredValue::NodeInfo(n)),
        KeyValue::ChannelInfo(op, c) => m.insert(
            prefixed(CHANNEL_UPDATE_INDEX_PREFIX, be_u64(c.timestamp)),
            StoredValue::ChannelRef(op),
        ).insert(
            prefixed(
                CHANNEL_ANNOUNCEMENT_INDEX_PREFIX,
                be_u64(c.funding_tx_block_number) + be_u32(c.funding_tx_index),
            ),
            StoredValue::ChannelRef(op),
        ).insert(prefixed(CHANNEL_INFO_PREFIX, op@), StoredValue::ChannelInfo(c)),
    }
}

/// The writes `put_kv` appends for `kv`, in order, as (key, record).
pub open spec fn kv_writes(kv: KeyValue) -> Seq<(Seq<u8>, StoredValue)> {
    match kv {
        KeyValue::ChannelActorState(id, st) => seq![
            (prefixed(CHANNEL_ACTOR_STATE_PREFIX, id@), StoredValue::ChannelActorState(st)),
        ],
        KeyValue::CkbInvoice(h, inv) => seq![(prefixed(CKB_INVOICE_PREFIX, h@), StoredValue::Invoice(inv))],
        KeyValue::CkbInvoicePreimage(h, p) => seq![
            (prefixed(CKB_INVOICE_PREIMAGE_PREFIX, h@), StoredValue::Preimage(p)),
        ],
        KeyValue::PeerIdChannelId((p, id), phase) => seq![
            (prefixed(PEER_ID_CHANNEL_ID_PREFIX, p@ + id@), StoredValue::ChannelPhase(phase)),
        ],
        KeyValue::PeerIdMultiAddr(p, a) => seq![
            (prefixed(PEER_ID_MULTIADDR_PREFIX, p@), StoredValue::Multiaddr(a)),
        ],
        KeyValue::NodeInfo(id, n) => seq![
            (prefixed(NODE_ANNOUNCEMENT_INDEX_PREFIX, be_u64(n.timestamp)), StoredValue::NodeRef(id)),
            (prefixed(NODE_INFO_PREFIX, id@), StoredValue::NodeInfo(n)),
        ],
        KeyValue::ChannelInfo(op, c) => seq![
            (prefixed(CHANNEL_UPDATE_INDEX_PREFIX, be_u64(c.timestamp)), StoredValue::ChannelRef(op)),
            (
                prefixed(
                    CHANNEL_ANNOUNCEMENT_INDEX_PREFIX,
                    be_u64(c.funding_tx_block_number) + be_u32(c.funding_tx_index),
                ),
                StoredValue::ChannelRef(op),
            ),
            (prefixed(CHANNEL_INFO_PREFIX, op@), StoredValue::ChannelInfo(c)),
        ],
    }
}

/// `ops` is `before` followed by puts of exactly `writes`.
pub open spec fn appended_puts(
    before: Seq<BatchOp>,
    ops: Seq<BatchOp>,
    writes: Seq<(Seq<u8>, StoredValue)>,
) -> bool {
    &&& ops.len() == before.len() + writes.len()
    &&& ops.subrange(0, before.len() as int) == before
    &&& forall|i: int|
        0 <= i < writes.len() ==> match #[trigger] ops[before.len() + i] {
            BatchOp::Put(k, v) => k@ == writes[i].0 && v == writes[i].1,
            BatchOp::Delete(_) => false,
        }
}

/// Record `v` may stand under key `k`: the key's prefix fixes the kind of
/// record, identified records stand under their own id, and a channel's full
/// state is at rest.
pub open spec fn layout_ok(k: Seq<u8>, v: StoredValue) -> bool {
    match v {
        StoredValue::ChannelActorState(st) => k == prefixed(CHANNEL_ACTOR_STATE_PREFIX, st.id@)
            && st.wf(),
        StoredValue::Invoice(inv) => k == prefixed(CKB_INVOICE_PREFIX, inv.payment_hash@),
        StoredValue::Preimage(_) => k.len() >= 1 && k[0] == CKB_INVOICE_PREIMAGE_PREFIX,
        StoredValue::ChannelPhase(_) => k.len() >= 1 && k[0] == PEER_ID_CHANNEL_ID_PREFIX,
        StoredValue::ChannelInfo(c) => k == prefixed(CHANNEL_INFO_PREFIX, c.out_point@),
        StoredValue::ChannelRef(_) => k.len() >= 1 && (k[0] == CHANNEL_ANNOUNCEMENT_INDEX_PREFIX
            || k[0] == CHANNEL_UPDATE_INDEX_PREFIX),
        StoredValue::NodeInfo(n) => k == prefixed(NODE_INFO_PREFIX, n.node_id@),
        StoredValue::NodeRef(_) => k.len() >= 1 && k[0] == NODE_ANNOUNCEMENT_INDEX_PREFIX,
        StoredValue::Multiaddr(_) => k.len() >= 1 && k[0] == PEER_ID_MULTIADDR_PREFIX,
        StoredValue::PaymentSession(ps) => k == prefixed(PAYMENT_SESSION_PREFIX, ps.payment_hash@),
    }
}

/// Every write of `ops` keeps the layout.
pub open spec fn ops_ok(ops: Seq<BatchOp>) -> bool {
    forall|i: int|
        0 <= i < ops.len() ==> match #[trigger] ops[i] {
            BatchOp::Put(k, v) => layout_ok(k@, v),
            BatchOp::Delete(_) => true,
        }
}

/// A typed record names itself consistently and a channel state is at rest.
pub open spec fn kv_ok(kv: KeyValue) -> bool {
    match kv {
        KeyValue::ChannelActorState(id, st) => id@ == st.id@ && st.wf(),
        KeyValue::CkbInvoice(h, inv) => h@ == inv.payment_hash@,
        KeyValue::NodeInfo(id, n) => id@ == n.node_id@,
        KeyValue::ChannelInfo(op, c) => op@ == c.out_point@,
        _ => true,
    }
}

/// Every stored record keeps the layout.
pub open spec fn laid_out(m: Map<Seq<u8>, StoredValue>) -> bool {
    forall|k: Seq<u8>| #[trigger] m.contains_key(k) ==> layout_ok(k, m[k])
}

/// Writes gathered to be committed together.
pub struct Batch {
    pub ops: Vec<BatchOp>,
}

impl Batch {
    pub fn new() -> (r: Batch)
        ensures
            r.ops@.len() == 0,
            ops_ok(r.ops@),
    {
        Batch { ops: Vec::new() }
    }

    /// Adds a write of `value` under `key`.
    pub fn put(&mut self, key: Vec<u8>, value: StoredValue)
        requires
            layout_ok(key@, value),
            ops_ok(old(self).ops@),
        ensures
            ops_ok(final(self).ops@),
            final(self).ops@ == old(self).ops@.push(BatchOp::Put(key, value)),
    {
        self.ops.push(BatchOp::Put(key, value));
    }

    /// Adds the writes of a typed record: the record under its key and,
    /// for graph channels and nodes, their index entries by timestamp and by
    /// funding block, all big-endian.
    pub fn put_kv(&mut self, kv: KeyValue)
        requires
            kv_ok(kv),
            ops_ok(old(self).ops@),
        ensures
            ops_ok(final(self).ops@),
            appended_puts(old(self).ops@, final(self).ops@, kv_writes(kv)),
            forall|m: Map<Seq<u8>, StoredValue>|
                #[trigger] apply_ops(m, final(self).ops@) == kv_effect(apply_ops(m, old(self).ops@), kv),
    {
        let ghost kv0 = kv;
        let ghost before = self.ops@;
        let ghost n0 = before.len();
        match kv {
            KeyValue::ChannelActorState(id, st) => {
                let k = channel_actor_state_key(&id);
                let ghost gk = k;
                self.put(k, StoredValue::ChannelActorState(st));
                proof {
                    assert forall|m: Map<Seq<u8>, StoredValue>|
                        #[trigger] apply_ops(m, self.ops@) == kv_effect(apply_ops(m, before), kv0) by {
                        lemma_apply_push(m, before, BatchOp::Put(gk, StoredValue::ChannelActorState(st)));
                    }
                }
            },
            KeyValue::CkbInvoice(h, inv) => {
                let k = invoice_key(&h);
                let ghost gk = k;
                let ghost gi = inv;
                self.put(k, StoredValue::Invoice(inv));
                proof {
                    assert forall|m: Map<Seq<u8>, StoredValue>|
                        #[trigger] apply_ops(m, self.ops@) == kv_effect(apply_ops(m, before), kv0) by {
                        lemma_apply_push(m, before, BatchOp::Put(gk, StoredValue::Invoice(gi)));
                    }
                }
            },
            KeyValue::CkbInvoicePreimage(h, p) => {
                let k = invoice_preimage_key(&h);
                let ghost gk = k;
                self.put(k, StoredValue::Preimage(p));
                proof {
                    assert forall|m: Map<Seq<u8>, StoredValue>|
                        #[trigger] apply_ops(m, self.ops@) == kv_effect(apply_ops(m, before), kv0) by {
                        lemma_apply_push(m, before, BatchOp::Put(gk, StoredValue::Preimage(p)));
                    }
                }
            },
            KeyValue::PeerIdChannelId((peer, id), phase) => {
                let k = peer_channel_key(&peer, &id);
                let ghost gk = k;
                self.put(k, StoredValue::ChannelPhase(phase));
                proof {
                    assert forall|m: Map<Seq<u8>, StoredValue>|
                        #[trigger] apply_ops(m, self.ops@) == kv_effect(apply_ops(m, before), kv0) by {
                        lemma_apply_push(m, before, BatchOp::Put(gk, StoredValue::ChannelPhase(phase)));
                    }
                }
            },
            KeyValue::PeerIdMultiAddr(peer, addr) => {
                let k = peer_addr_key(&peer);
                let ghost gk = k;
                let ghost ga = addr;
                self.put(k, StoredValue::Multiaddr(addr));
                proof {
                    assert forall|m: Map<Seq<u8>, StoredValue>|
                        #[trigger] apply_ops(m, self.ops@) == kv_effect(apply_ops(m, before), kv0) by {
                        lemma_apply_push(m, before, BatchOp::Put(gk, StoredValue::Multiaddr(ga)));
                    }
                }
            },
            KeyValue::NodeInfo(id, node) => {
                let k1 = node_announcement_index_key(node.timestamp);
                let k2 = node_info_key(&id);
                let ghost (g1, g2, gn) = (k1, k2, node);
                self.put(k1, StoredValue::NodeRef(id));
                let ghost mid = self.ops@;
                self.put(k2, StoredValue::NodeInfo(node));
                proof {
                    assert forall|m: Map<Seq<u8>, StoredValue>|
                        #[trigger] apply_ops(m, self.ops@) == kv_effect(apply_ops(m, before), kv0) by {
                        lemma_apply_push(m, before, BatchOp::Put(g1, StoredValue::NodeRef(id)));
                        lemma_apply_push(m, mid, BatchOp::Put(g2, StoredValue::NodeInfo(gn)));
                    }
                }
            },
            KeyValue::ChannelInfo(op, channel) => {
                let k1 = channel_update_index_key(channel.timestamp);
                let k2 = channel_announcement_index_key(
                    channel.funding_tx_block_number,
                    channel.funding_tx_index,
                );
                let k3 = channel_info_key(&op);
                let ghost (g1, g2, g3) = (k1, k2, k3);
                self.put(k1, StoredValue::ChannelRef(op));
                let ghost mid1 = self.ops@;
                self.put(k2, StoredValue::ChannelRef(op));
                let ghost mid2 = self.ops@;
                self.put(k3, StoredValue::ChannelInfo(channel));
                proof {
                    assert forall|m: Map<Seq<u8>, StoredValue>|
                        #[trigger] apply_ops(m, self.ops@) == kv_effect(apply_ops(m, before), kv0) by {
                        lemma_apply_push(m, before, BatchOp::Put(g1, StoredValue::ChannelRef(op)));
                        lemma_apply_push(m, mid1, BatchOp::Put(g2, StoredValue::ChannelRef(op)));
                        lemma_apply_push(m, mid2, BatchOp::Put(g3, StoredValue::ChannelInfo(channel)));
                    }
                }
            },
        }
        proof {
            assert(self.ops@.subrange(0, n0 as int) =~= before);
        }
    }

    /// Adds a removal of `key`.
    pub fn delete(&mut self, key: Vec<u8>)
        requires
            ops_ok(old(self).ops@),
        ensures
            ops_ok(final(self).ops@),
            final(self).ops@ == old(self).ops@.push(BatchOp::Delete(key)),
    {
        self.ops.push(BatchOp::Delete(key));
    }
}

/// A key-value store partitioned by a one-byte key prefix, its entries kept
/// in ascending key order.
pub struct Store {
    entries: Vec<(Vec<u8>, StoredValue)>,
    contents: Ghost<Map<Seq<u8>, StoredValue>>,
}

impl View for Store {
    type V = Map<Seq<u8>, StoredValue>;

    closed spec fn view(&self) -> Map<Seq<u8>, StoredValue> {
        self.contents@
    }
}

impl Store {
    /// The entries hold each key once and agree with the contents.
    pub closed spec fn wf(&self) -> bool {
        &&& forall|i: int, j: int|
            0 <= i < j < self.entries@.len() ==> #[trigger] self.entries@[i].0@
                != #[trigger] self.entries@[j].0@
        &&& forall|k: Seq<u8>|
            #![trigger self.contents@.contains_key(k)]
            self.contents@.contains_key(k) <==> exists|i: int|
                0 <= i < self.entries@.len() && #[trigger] self.entries@[i].0@ == k
        &&& forall|i: int|
            0 <= i < self.entries@.len() ==> self.contents@[#[trigger] self.entries@[i].0@]
                == self.entries@[i].1
        &&& laid_out(self.contents@)
        &&& forall|i: int, j: int|
            0 <= i < j < self.entries@.len() ==> key_lt(
                #[trigger] self.entries@[i].0@,
                #[trigger] self.entries@[j].0@,
            )
    }

    /// Every record of a well-formed store keeps the layout.
    pub proof fn lemma_laid_out(&self)
        requires
            self.wf(),
        ensures
            laid_out(self@),
    {
    }

    /// An empty store.
    pub fn new() -> (r: Store)
        ensures
            r.wf(),
            r@ == Map::<Seq<u8>, StoredValue>::empty(),
    {
        Store { entries: Vec::new(), contents: Ghost(Map::empty()) }
    }

    fn find(&self, key: &[u8]) -> (r: Option<usize>)
        requires
            self.wf(),
        ensures
            r is None <==> !self@.contains_key(key@),
            r is Some ==> r->Some_0 < self.entries@.len() && self.entries@[r->Some_0 as int].0@
                == key@,
    {
        let mut i: usize = 0;
        while i < self.entries.len()
            invariant
                0 <= i <= self.entries@.len(),
                self.wf(),
                forall|j: int| 0 <= j < i ==> #[trigger] self.entries@[j].0@ != key@,
            decreases self.entries@.len() - i,
        {
            if bytes_eq(self.entries[i].0.as_slice(), key) {
                assert(self.entries@[i as int].0@ == key@);
                assert(self@.contains_key(key@));
                return Some(i);
            }
            i = i + 1;
        }
        assert(!self@.contains_key(key@)) by {
            if self@.contains_key(key@) {
                let j = choose|j: int| 0 <= j < self.entries@.len() && #[trigger] self.entries@[j].0@ == key@;
                assert(self.entries@[j].0@ != key@);
            }
        }
        None
    }

    /// The value stored under `key`.
    pub fn get(&self, key: &[u8]) -> (r: Option<&StoredValue>)
        requires
            self.wf(),
        ensures
            r is None <==> !self@.contains_key(key@),
            r is Some ==> *r->Some_0 == self@[key@],
    {
        match self.find(key) {
            Some(i) => Some(&self.entries[i].1),
            None => None,
        }
    }

    fn put(&mut self, key: Vec<u8>, value: StoredValue)
        requires
            old(self).wf(),
            layout_ok(key@, value),
        ensures
            final(self).wf(),
            final(self)@ == old(self)@.insert(key@, value),
    {
        let ghost k = key@;
        let ghost v = value;
        let ghost old_entries = self.entries@;
        match self.find(key.as_slice()) {
            Some(i) => {
                self.entries.set(i, (key, value));
                self.contents = Ghost(self.contents@.insert(k, v));
                assert forall|kk: Seq<u8>| #[trigger] self.contents@.contains_key(kk) implies layout_ok(
                    kk,
                    self.contents@[kk],
                ) by {
                    if kk != k {
                        assert(old(self)@.contains_key(kk));
                    }
                }
                assert forall|j: int| 0 <= j < self.entries@.len() implies self.contents@[
                    #[trigger] self.entries@[j].0@] == self.entries@[j].1 by {
                    if j != i {
                        assert(old_entries[j].0@ != old_entries[i as int].0@);
                    }
                }
                assert forall|x: int| 0 <= x < self.entries@.len() implies #[trigger] self.entries@[x].0@
                    == old_entries[x].0@ by {}
                assert forall|a: int, b: int| 0 <= a < b < self.entries@.len() implies #[trigger] self.entries@[a].0@
                    != #[trigger] self.entries@[b].0@ by {
                    assert(self.entries@[a].0@ == old_entries[a].0@);
                    assert(self.entries@[b].0@ == old_entries[b].0@);
                }
                assert forall|kk: Seq<u8>| #[trigger] self.contents@.contains_key(kk) implies exists|j: int|
                    0 <= j < self.entries@.len() && #[trigger] self.entries@[j].0@ == kk by {
                    if kk != k {
                        let j = choose|j: int| 0 <= j < old_entries.len() && #[trigger] old_entries[j].0@ == kk;
                        assert(self.entries@[j].0@ == kk);
                    } else {
                        assert(self.entries@[i as int].0@ == kk);
                    }
                }
                assert forall|kk: Seq<u8>| exists|j: int|
                    0 <= j < self.entries@.len() && #[trigger] self.entries@[j].0@ == kk implies #[trigger] self.contents@.contains_key(kk) by {
                    let j = choose|j: int| 0 <= j < self.entries@.len() && #[trigger] self.entries@[j].0@ == kk;
                    assert(self.entries@[j].0@ == old_entries[j].0@);
                    assert(old(self)@.contains_key(kk));
                }
            },
            None => {
                // Keep the entries sorted: insert before the first greater key.
                let mut pos: usize = 0;
                while pos < self.entries.len() && bytes_lt(self.entries[pos].0.as_slice(), key.as_slice())
                    invariant
                        0 <= pos <= self.entries@.len(),
                        self.entries@ == old_entries,
                        k == key@,
                        forall|a: int| 0 <= a < pos ==> key_lt(#[trigger] old_entries[a].0@, k),
                    decreases self.entries@.len() - pos,
                {
                    pos = pos + 1;
                }
                proof {
                    assert forall|c: int| pos <= c < old_entries.len() implies key_lt(k, #[trigger] old_entries[c].0@) by {
                        assert(old(self)@.contains_key(old_entries[pos as int].0@));
                        assert(old_entries[pos as int].0@ != k);
                        lemma_key_lt_total(k, old_entries[pos as int].0@);
                        if c > pos {
                            lemma_key_lt_trans(k, old_entries[pos as int].0@, old_entries[c].0@);
                        }
                    }
                }
                self.entries.insert(pos, (key, value));
                self.contents = Ghost(self.contents@.insert(k, v));
                let ghost n = old_entries.len() as int;
                assert forall|j: int| 0 <= j < self.entries@.len() implies #[trigger] self.entries@[j] == (if j < pos {
                    old_entries[j]
                } else if j == pos {
                    (key, value)
                } else {
                    old_entries[j - 1]
                }) by {}
                assert forall|kk: Seq<u8>| #[trigger] self.contents@.contains_key(kk) implies layout_ok(
                    kk,
                    self.contents@[kk],
                ) by {
                    if kk != k {
                        assert(old(self)@.contains_key(kk));
                    }
                }
                assert forall|kk: Seq<u8>| #[trigger] self.contents@.contains_key(kk) implies exists|j: int|
                    0 <= j < self.entries@.len() && #[trigger] self.entries@[j].0@ == kk by {
                    if kk != k {
                        let j = choose|j: int| 0 <= j < old_entries.len() && #[trigger] old_entries[j].0@ == kk;
                        if j < pos {
                            assert(self.entries@[j].0@ == kk);
                        } else {
                            assert(self.entries@[j + 1].0@ == kk);
                        }
                    } else {
                        assert(self.entries@[pos as int].0@ == kk);
                    }
                }
                assert forall|kk: Seq<u8>| exists|j: int|
                    0 <= j < self.entries@.len() && #[trigger] self.entries@[j].0@ == kk implies #[trigger] self.contents@.contains_key(kk) by {
                    let j = choose|j: int| 0 <= j < self.entries@.len() && #[trigger] self.entries@[j].0@ == kk;
                    if j < pos {
                        assert(old(self)@.contains_key(kk));
                    } else if j > pos {
                        assert(old(self)@.contains_key(old_entries[j - 1].0@));
                    }
                }
                assert forall|j: int| 0 <= j < self.entries@.len() implies self.contents@[
                    #[trigger] self.entries@[j].0@] == self.entries@[j].1 by {
                    if j != pos {
                        let j0 = if j < pos { j } else { j - 1 };
                        assert(old(self)@.contains_key(old_entries[j0].0@));
                        assert(!old(self)@.contains_key(k));
                    }
                }
                assert forall|a: int, b: int| 0 <= a < b < self.entries@.len() implies key_lt(
                    #[trigger] self.entries@[a].0@,
                    #[trigger] self.entries@[b].0@,
                ) by {
                    if b < pos {
                    } else if a > pos {
                    } else if a < pos && b > pos {
                    } else if a == pos {
                    } else {
                    }
                }
                assert forall|a: int, b: int| 0 <= a < b < self.entries@.len() implies #[trigger] self.entries@[a].0@
                    != #[trigger] self.entries@[b].0@ by {
                    assert(key_lt(self.entries@[a].0@, self.entries@[b].0@));
                    lemma_key_lt_irrefl(self.entries@[a].0@);
                }
            },
        }
    }

    fn delete(&mut self, key: &[u8])
        requires
            old(self).wf(),
        ensures
            final(self).wf(),
            final(self)@ == old(self)@.remove(key@),
    {
        let ghost old_entries = self.entries@;
        match self.find(key) {
            Some(i) => {
                self.entries.remove(i);
                self.contents = Ghost(self.contents@.remove(key@));
                assert forall|j: int| 0 <= j < self.entries@.len() implies #[trigger] self.entries@[j]
                    == old_entries[if j < i { j } else { j + 1 }] by {}
                assert forall|j: int| 0 <= j < self.entries@.len() implies self.contents@[
                    #[trigger] self.entries@[j].0@] == self.entries@[j].1 by {
                    let j0 = if j < i { j } else { j + 1 };
                    assert(self.entries@[j] == old_entries[j0]);
                    assert(old_entries[j0].0@ != old_entries[i as int].0@);
                }
                assert forall|kk: Seq<u8>| #[trigger] self.contents@.contains_key(kk) implies exists|j: int|
                    0 <= j < self.entries@.len() && #[trigger] self.entries@[j].0@ == kk by {
                    let j0 = choose|j: int| 0 <= j < old_entries.len() && #[trigger] old_entries[j].0@ == kk;
                    assert(j0 != i);
                    let j = if j0 < i { j0 } else { j0 - 1 };
                    assert(self.entries@[j] == old_entries[j0]);
                }
                assert forall|kk: Seq<u8>| exists|j: int|
                    0 <= j < self.entries@.len() && #[trigger] self.entries@[j].0@ == kk implies #[trigger] self.contents@.contains_key(kk) by {
                    let j = choose|j: int| 0 <= j < self.entries@.len() && #[trigger] self.entries@[j].0@ == kk;
                    let j0 = if j < i { j } else { j + 1 };
                    assert(self.entries@[j] == old_entries[j0]);
                    assert(old_entries[j0].0@ != old_entries[i as int].0@);
                }
                assert forall|a: int, b: int| 0 <= a < b < self.entries@.len() implies #[trigger] self.entries@[a].0@
                    != #[trigger] self.entries@[b].0@ by {
                    let a0 = if a < i { a } else { a + 1 };
                    let b0 = if b < i { b } else { b + 1 };
                    assert(self.entries@[a] == old_entries[a0]);
                    assert(self.entries@[b] == old_entries[b0]);
                }
            },
            None => {
                assert(self@ =~= old(self)@.remove(key@));
            },
        }
    }

    /// Applies the writes of `batch` in order.
    pub fn commit(&mut self, batch: Batch)
        requires
            old(self).wf(),
            ops_ok(batch.ops@),
        ensures
            final(self).wf(),
            final(self)@ == apply_ops(old(self)@, batch.ops@),
    {
        let mut ops = batch.ops;
        while ops.len() > 0
            invariant
                self.wf(),
                apply_ops(self@, ops@) == apply_ops(old(self)@, batch.ops@),
                ops_ok(ops@),
            decreases ops@.len(),
        {
            let ghost before = ops@;
            let op = ops.remove(0);
            assert(ops@ =~= before.subrange(1, before.len() as int));
            assert(before[0] == op);
            assert forall|i: int| 0 <= i < ops@.len() implies match #[trigger] ops@[i] {
                BatchOp::Put(k, v) => layout_ok(k@, v),
                BatchOp::Delete(_) => true,
            } by {
                assert(ops@[i] == before[i + 1]);
            }
            match op {
                BatchOp::Put(k, v) => self.put(k, v),
                BatchOp::Delete(k) => self.delete(k.as_slice()),
            }
        }
    }
}


proof fn lemma_apply_push(m: Map<Seq<u8>, StoredValue>, ops: Seq<BatchOp>, op: BatchOp)
    ensures
        apply_ops(m, ops.push(op)) == apply_op(apply_ops(m, ops), op),
    decreases ops.len(),
{
    let all = ops.push(op);
    if ops.len() == 0 {
        assert(all.subrange(1, 1) =~= Seq::<BatchOp>::empty());
        assert(apply_ops(apply_op(m, op), Seq::<BatchOp>::empty()) == apply_op(m, op));
        assert(apply_ops(m, ops) == m);
    } else {
        let rest = ops.subrange(1, ops.len() as int);
        assert(all.subrange(1, all.len() as int) =~= rest.push(op));
        assert(all[0] == ops[0]);
        lemma_apply_push(apply_op(m, ops[0]), rest, op);
    }
}

proof fn lemma_apply_one(m: Map<Seq<u8>, StoredValue>, a: BatchOp)
    ensures
        apply_ops(m, seq![a]) == apply_op(m, a),
{
    assert(seq![a].subrange(1, 1) =~= Seq::<BatchOp>::empty());
    assert(apply_ops(apply_op(m, a), Seq::<BatchOp>::empty()) == apply_op(m, a));
}

proof fn lemma_apply_two(m: Map<Seq<u8>, StoredValue>, a: BatchOp, b: BatchOp)
    ensures
        apply_ops(m, seq![a, b]) == apply_op(apply_op(m, a), b),
{
    assert(seq![a, b].subrange(1, 2) =~= seq![b]);
    lemma_apply_one(apply_op(m, a), b);
}

/// The channel state stored under `id`, if any.
pub open spec fn stored_channel_state(m: Map<Seq<u8>, StoredValue>, id: Seq<u8>) -> Option<
    ChannelActorState,
> {
    let k = prefixed(CHANNEL_ACTOR_STATE_PREFIX, id);
    if m.contains_key(k) && m[k] is ChannelActorState {
        Some(m[k]->ChannelActorState_0)
    } else {
        None
    }
}

/// The contents after storing channel state `s`: the full state under its id
/// and its phase under its peer and id, together.
pub open spec fn with_channel_state(m: Map<Seq<u8>, StoredValue>, s: ChannelActorState) -> Map<
    Seq<u8>,
    StoredValue,
> {
    m.insert(prefixed(CHANNEL_ACTOR_STATE_PREFIX, s.id@), StoredValue::ChannelActorState(s)).insert(
        prefixed(PEER_ID_CHANNEL_ID_PREFIX, s.remote_peer_id@ + s.id@),
        StoredValue::ChannelPhase(s.state),
    )
}

/// The invoice stored under `hash`, if any.
pub open spec fn stored_invoice(m: Map<Seq<u8>, StoredValue>, hash: Seq<u8>) -> Option<CkbInvoice> {
    let k = prefixed(CKB_INVOICE_PREFIX, hash);
    if m.contains_key(k) && m[k] is Invoice {
        Some(m[k]->Invoice_0)
    } else {
        None
    }
}

/// The preimage stored under `hash`, if any.
pub open spec fn stored_preimage(m: Map<Seq<u8>, StoredValue>, hash: Seq<u8>) -> Option<Hash256> {
    let k = prefixed(CKB_INVOICE_PREIMAGE_PREFIX, hash);
    if m.contains_key(k) && m[k] is Preimage {
        Some(m[k]->Preimage_0)
    } else {
        None
    }
}

/// The contents after storing `invoice` and, if given, its preimage.
pub open spec fn with_invoice(
    m: Map<Seq<u8>, StoredValue>,
    invoice: CkbInvoice,
    preimage: Option<Hash256>,
) -> Map<Seq<u8>, StoredValue> {
    let h = invoice.payment_hash@;
    let m1 = match preimage {
        Some(p) => m.insert(prefixed(CKB_INVOICE_PREIMAGE_PREFIX, h), StoredValue::Preimage(p)),
        None => m,
    };
    m1.insert(prefixed(CKB_INVOICE_PREFIX, h), StoredValue::Invoice(invoice))
}

/// The payment session stored under `hash`, if any.
pub open spec fn stored_payment_session(m: Map<Seq<u8>, StoredValue>, hash: Seq<u8>) -> Option<
    PaymentSession,
> {
    let k = prefixed(PAYMENT_SESSION_PREFIX, hash);
    if m.contains_key(k) && m[k] is PaymentSession {
        Some(m[k]->PaymentSession_0)
    } else {
        None
    }
}

/// Keys under different prefixes differ.
proof fn lemma_prefixes_differ(a: u8, x: Seq<u8>, b: u8, y: Seq<u8>)
    requires
        a != b,
    ensures
        prefixed(a, x) != prefixed(b, y),
{
    assert(prefixed(a, x)[0] != prefixed(b, y)[0]);
}

/// Storing a channel state and then reading it back by its id gives the
/// same state.
pub proof fn lemma_channel_state_round_trip(m: Map<Seq<u8>, StoredValue>, s: ChannelActorState)
    ensures
        stored_channel_state(with_channel_state(m, s), s.id@) == Some(s),
{
    lemma_prefixes_differ(
        PEER_ID_CHANNEL_ID_PREFIX,
        s.remote_peer_id@ + s.id@,
        CHANNEL_ACTOR_STATE_PREFIX,
        s.id@,
    );
}

/// Storing an invoice and then reading it back by its payment hash gives the
/// same invoice, and the preimage stored with it.
pub proof fn lemma_invoice_round_trip(
    m: Map<Seq<u8>, StoredValue>,
    invoice: CkbInvoice,
    preimage: Option<Hash256>,
)
    ensures
        stored_invoice(with_invoice(m, invoice, preimage), invoice.payment_hash@) == Some(invoice),
        preimage is Some ==> stored_preimage(
            with_invoice(m, invoice, preimage),
            invoice.payment_hash@,
        ) == preimage,
{
    let h = invoice.payment_hash@;
    lemma_prefixes_differ(CKB_INVOICE_PREIMAGE_PREFIX, h, CKB_INVOICE_PREFIX, h);
}

/// Storing a payment session and then reading it back by its payment hash
/// gives the same session.
pub proof fn lemma_payment_session_round_trip(m: Map<Seq<u8>, StoredValue>, s: PaymentSession)
    ensures
        stored_payment_session(
            m.insert(prefixed(PAYMENT_SESSION_PREFIX, s.payment_hash@), StoredValue::PaymentSession(s)),
            s.payment_hash@,
        ) == Some(s),
{
}

/// Storing an invoice whose payment hash already has one is refused and
/// leaves the store as it was, however often it is repeated.
pub proof fn lemma_duplicate_invoice_rejected(
    m: Map<Seq<u8>, StoredValue>,
    first: CkbInvoice,
    first_preimage: Option<Hash256>,
    second: CkbInvoice,
)
    requires
        second.payment_hash@ == first.payment_hash@,
    ensures
        with_invoice(m, first, first_preimage).contains_key(
            prefixed(CKB_INVOICE_PREFIX, second.payment_hash@),
        ),
        stored_invoice(with_invoice(m, first, first_preimage), second.payment_hash@) == Some(first),
{
    lemma_invoice_round_trip(m, first, first_preimage);
}

impl Store {
    /// The full state of channel `id`.
    pub fn get_channel_actor_state(&self, id: &Hash256) -> (r: Option<&ChannelActorState>)
        requires
            self.wf(),
        ensures
            r is Some == stored_channel_state(self@, id@) is Some,
            r is Some ==> *r->Some_0 == stored_channel_state(self@, id@)->Some_0,
            r is Some ==> r->Some_0.wf() && r->Some_0.id@ == id@,
    {
        proof {
            let k = prefixed(CHANNEL_ACTOR_STATE_PREFIX, id@);
            if self@.contains_key(k) {
                assert(layout_ok(k, self@[k]));
                if self@[k] is ChannelActorState {
                    let st = self@[k]->ChannelActorState_0;
                    assert(id@ =~= k.subrange(1, k.len() as int));
                    assert(st.id@ =~= prefixed(CHANNEL_ACTOR_STATE_PREFIX, st.id@).subrange(1, k.len() as int));
                }
            }
        }
        let key = channel_actor_state_key(id);
        match self.get(key.as_slice()) {
            Some(StoredValue::ChannelActorState(s)) => Some(s),
            _ => None,
        }
    }

    /// Stores a channel's full state and its phase by peer in one batch.
    pub fn insert_channel_actor_state(&mut self, state: ChannelActorState)
        requires
            old(self).wf(),
            state.wf(),
        ensures
            final(self).wf(),
            final(self)@ == with_channel_state(old(self)@, state),
    {
        let id = state.id;
        let peer = PeerId {
            bytes: copy_range(state.remote_peer_id.bytes.as_slice(), 0, state.remote_peer_id.bytes.len()),
        };
        let phase = state.state;
        let ghost st = state;
        let mut batch = Batch::new();
        let ghost empty = batch.ops@;
        batch.put_kv(KeyValue::ChannelActorState(id, state));
        let ghost mid = batch.ops@;
        batch.put_kv(KeyValue::PeerIdChannelId((peer, id), phase));
        proof {
            let m = old(self)@;
            assert(apply_ops(m, empty) == m);
            assert(apply_ops(m, mid) == kv_effect(apply_ops(m, empty), KeyValue::ChannelActorState(id, st)));
            assert(apply_ops(m, batch.ops@) == kv_effect(apply_ops(m, mid), KeyValue::PeerIdChannelId((peer, id), phase)));
            assert(st.remote_peer_id.bytes@.subrange(0, st.remote_peer_id.bytes@.len() as int) =~= st.remote_peer_id@);
        }
        self.commit(batch);
    }

    /// Removes a channel's full state and its phase by peer in one batch. An
    /// unknown id changes nothing.
    pub fn delete_channel_actor_state(&mut self, id: &Hash256)
        requires
            old(self).wf(),
        ensures
            final(self).wf(),
            stored_channel_state(old(self)@, id@) is None ==> final(self)@ == old(self)@,
            stored_channel_state(old(self)@, id@) is Some ==> final(self)@ == old(self)@.remove(
                prefixed(CHANNEL_ACTOR_STATE_PREFIX, id@),
            ).remove(
                prefixed(
                    PEER_ID_CHANNEL_ID_PREFIX,
                    stored_channel_state(old(self)@, id@)->Some_0.remote_peer_id@ + id@,
                ),
            ),
    {
        let k2 = match self.get_channel_actor_state(id) {
            Some(s) => peer_channel_key(&s.remote_peer_id, id),
            None => {
                return ;
            },
        };
        let k1 = channel_actor_state_key(id);
        let ghost g1 = k1;
        let ghost g2 = k2;
        let mut batch = Batch::new();
        batch.delete(k1);
        batch.delete(k2);
        proof {
            let a = BatchOp::Delete(g1);
            let b = BatchOp::Delete(g2);
            assert(batch.ops@ =~= seq![a, b]);
            lemma_apply_two(old(self)@, a, b);
        }
        self.commit(batch);
    }

    /// The invoice for payment hash `id`.
    pub fn get_invoice(&self, id: &Hash256) -> (r: Option<&CkbInvoice>)
        requires
            self.wf(),
        ensures
            r is Some == stored_invoice(self@, id@) is Some,
            r is Some ==> *r->Some_0 == stored_invoice(self@, id@)->Some_0,
    {
        let key = invoice_key(id);
        match self.get(key.as_slice()) {
            Some(StoredValue::Invoice(inv)) => Some(inv),
            _ => None,
        }
    }

    /// The preimage stored for payment hash `id`.
    pub fn get_invoice_preimage(&self, id: &Hash256) -> (r: Option<Hash256>)
        requires
            self.wf(),
        ensures
            r == stored_preimage(self@, id@),
    {
        let key = invoice_preimage_key(id);
        match self.get(key.as_slice()) {
            Some(StoredValue::Preimage(p)) => Some(*p),
            _ => None,
        }
    }

    /// Stores an invoice and, if given, its preimage in one batch. A payment
    /// hash that already has a record is refused and nothing is written.
    pub fn insert_invoice(&mut self, invoice: CkbInvoice, preimage: Option<Hash256>) -> (r: Result<
        (),
        InvoiceError,
    >)
        requires
            old(self).wf(),
        ensures
            final(self).wf(),
            old(self)@.contains_key(prefixed(CKB_INVOICE_PREFIX, invoice.payment_hash@)) ==> r
                == Err::<(), InvoiceError>(InvoiceError::DuplicatedInvoice) && final(self)@ == old(
                self,
            )@,
            !old(self)@.contains_key(prefixed(CKB_INVOICE_PREFIX, invoice.payment_hash@)) ==> r
                is Ok && final(self)@ == with_invoice(old(self)@, invoice, preimage),
    {
        let hash = *invoice.payment_hash();
        let key = invoice_key(&hash);
        if self.get(key.as_slice()).is_some() {
            return Err(InvoiceError::DuplicatedInvoice);
        }
        let ghost inv = invoice;
        let mut batch = Batch::new();
        let ghost empty = batch.ops@;
        if let Some(p) = preimage {
            batch.put_kv(KeyValue::CkbInvoicePreimage(hash, p));
        }
        let ghost mid = batch.ops@;
        batch.put_kv(KeyValue::CkbInvoice(hash, invoice));
        proof {
            let m = old(self)@;
            assert(apply_ops(m, empty) == m);
            assert(apply_ops(m, mid) == match preimage {
                Some(p) => kv_effect(m, KeyValue::CkbInvoicePreimage(hash, p)),
                None => m,
            });
            assert(apply_ops(m, batch.ops@) == kv_effect(apply_ops(m, mid), KeyValue::CkbInvoice(hash, inv)));
        }
        self.commit(batch);
        Ok(())
    }

    /// The payment session for `payment_hash`.
    pub fn get_payment_session(&self, payment_hash: &Hash256) -> (r: Option<&PaymentSession>)
        requires
            self.wf(),
        ensures
            r is Some == stored_payment_session(self@, payment_hash@) is Some,
            r is Some ==> *r->Some_0 == stored_payment_session(self@, payment_hash@)->Some_0,
    {
        let key = payment_session_key(payment_hash);
        match self.get(key.as_slice()) {
            Some(StoredValue::PaymentSession(p)) => Some(p),
            _ => None,
        }
    }

    /// Stores a payment session under its payment hash.
    pub fn insert_payment_session(&mut self, session: PaymentSession)
        requires
            old(self).wf(),
        ensures
            final(self).wf(),
            final(self)@ == old(self)@.insert(
                prefixed(PAYMENT_SESSION_PREFIX, session.payment_hash@),
                StoredValue::PaymentSession(session),
            ),
    {
        let key = payment_session_key(session.payment_hash());
        self.put(key, StoredValue::PaymentSession(session));
    }

    /// Records the address of a connected peer.
    pub fn insert_connected_peer(&mut self, peer_id: &PeerId, multiaddr: Vec<u8>)
        requires
            old(self).wf(),
        ensures
            final(self).wf(),
            final(self)@ == old(self)@.insert(
                prefixed(PEER_ID_MULTIADDR_PREFIX, peer_id@),
                StoredValue::Multiaddr(multiaddr),
            ),
    {
        let key = peer_addr_key(peer_id);
        self.put(key, StoredValue::Multiaddr(multiaddr));
    }

    /// Forgets the address of a peer.
    pub fn remove_connected_peer(&mut self, peer_id: &PeerId)
        requires
            old(self).wf(),
        ensures
            final(self).wf(),
            final(self)@ == old(self)@.remove(prefixed(PEER_ID_MULTIADDR_PREFIX, peer_id@)),
    {
        let key = peer_addr_key(peer_id);
        self.delete(key.as_slice());
    }
}


/// The store already holds a record of `c`'s channel that is at least as
/// new: writing `c` would lose, last writer wins by timestamp.
pub open spec fn stale_channel(m: Map<Seq<u8>, StoredValue>, c: ChannelInfo) -> bool {
    let k = prefixed(CHANNEL_INFO_PREFIX, c.out_point@);
    m.contains_key(k) && m[k] is ChannelInfo && c.timestamp <= m[k]->ChannelInfo_0.timestamp
}

/// The store already holds a record of `n`'s node that is at least as new.
pub open spec fn stale_node(m: Map<Seq<u8>, StoredValue>, n: NodeInfo) -> bool {
    let k = prefixed(NODE_INFO_PREFIX, n.node_id@);
    m.contains_key(k) && m[k] is NodeInfo && n.timestamp <= m[k]->NodeInfo_0.timestamp
}

/// The phase recorded for peer `p` and channel `id`, if any.
pub open spec fn stored_phase(m: Map<Seq<u8>, StoredValue>, p: Seq<u8>, id: Seq<u8>) -> Option<
    ChannelState,
> {
    let k = prefixed(PEER_ID_CHANNEL_ID_PREFIX, p + id);
    if m.contains_key(k) && m[k] is ChannelPhase {
        Some(m[k]->ChannelPhase_0)
    } else {
        None
    }
}

/// The phase listed for peer `p` and channel `id`: that of the stored full
/// state where there is one, else the phase entry's.
pub open spec fn listed_phase(m: Map<Seq<u8>, StoredValue>, p: Seq<u8>, id: Seq<u8>) -> ChannelState {
    match stored_channel_state(m, id) {
        Some(st) => st.state,
        None => stored_phase(m, p, id)->Some_0,
    }
}

/// The key of a listed phase entry.
pub open spec fn phase_key(e: (PeerId, Hash256, ChannelState)) -> Seq<u8> {
    prefixed(PEER_ID_CHANNEL_ID_PREFIX, e.0@ + e.1@)
}

/// A phase entry whose key reads as `64 ‖ peer ‖ channel_id`, for the
/// requested peer if one is given.
pub open spec fn phase_entry_matches(k: Seq<u8>, v: StoredValue, peer: Option<Seq<u8>>) -> bool {
    &&& k.len() >= 33
    &&& k[0] == PEER_ID_CHANNEL_ID_PREFIX
    &&& v is ChannelPhase
    &&& peer is Some ==> k.subrange(1, k.len() - 32) == peer->Some_0
}

impl Store {
    /// Stores a graph channel with its index entries by update timestamp and
    /// by funding block number and transaction index, in one batch, unless
    /// the stored record of that channel is at least as new: last writer
    /// wins by timestamp. Returns whether the record was written.
    pub fn insert_channel(&mut self, channel: ChannelInfo) -> (r: bool)
        requires
            old(self).wf(),
        ensures
            final(self).wf(),
            r == !stale_channel(old(self)@, channel),
            !r ==> final(self)@ == old(self)@,
            r ==> final(self)@ == old(self)@.insert(
                prefixed(CHANNEL_UPDATE_INDEX_PREFIX, be_u64(channel.timestamp)),
                StoredValue::ChannelRef(channel.out_point),
            ).insert(
                prefixed(
                    CHANNEL_ANNOUNCEMENT_INDEX_PREFIX,
                    be_u64(channel.funding_tx_block_number) + be_u32(channel.funding_tx_index),
                ),
                StoredValue::ChannelRef(channel.out_point),
            ).insert(prefixed(CHANNEL_INFO_PREFIX, channel.out_point@), StoredValue::ChannelInfo(channel)),
    {
        let ghost c = channel;
        let key = channel_info_key(&channel.out_point);
        if let Some(StoredValue::ChannelInfo(c0)) = self.get(key.as_slice()) {
            if channel.timestamp <= c0.timestamp {
                return false;
            }
        }
        let mut batch = Batch::new();
        let ghost empty = batch.ops@;
        batch.put_kv(KeyValue::ChannelInfo(channel.out_point(), channel));
        proof {
            let m = old(self)@;
            assert(apply_ops(m, empty) == m);
            assert(apply_ops(m, batch.ops@) == kv_effect(apply_ops(m, empty), KeyValue::ChannelInfo(c.out_point, c)));
        }
        self.commit(batch);
        true
    }

    /// Stores a graph node with its index entry by announcement timestamp, in
    /// one batch, unless the stored record of that node is at least as new.
    /// Returns whether the record was written.
    pub fn insert_node(&mut self, node: NodeInfo) -> (r: bool)
        requires
            old(self).wf(),
        ensures
            final(self).wf(),
            r == !stale_node(old(self)@, node),
            !r ==> final(self)@ == old(self)@,
            r ==> final(self)@ == old(self)@.insert(
                prefixed(NODE_ANNOUNCEMENT_INDEX_PREFIX, be_u64(node.timestamp)),
                StoredValue::NodeRef(node.node_id),
            ).insert(prefixed(NODE_INFO_PREFIX, node.node_id@), StoredValue::NodeInfo(node)),
    {
        let ghost n = node;
        let id = node.node_id;
        let key = node_info_key(&id);
        if let Some(StoredValue::NodeInfo(n0)) = self.get(key.as_slice()) {
            if node.timestamp <= n0.timestamp {
                return false;
            }
        }
        let mut batch = Batch::new();
        let ghost empty = batch.ops@;
        batch.put_kv(KeyValue::NodeInfo(id, node));
        proof {
            let m = old(self)@;
            assert(apply_ops(m, empty) == m);
            assert(apply_ops(m, batch.ops@) == kv_effect(apply_ops(m, empty), KeyValue::NodeInfo(id, n)));
        }
        self.commit(batch);
        true
    }

    /// The channels with a phase entry, all of them or those with `peer_id`,
    /// as `(peer, channel id, phase)`, the peer and id read back from the keys
    /// `64 ‖ peer ‖ channel_id`, in ascending key order. The phase is that of
    /// the channel's stored full state, or the entry's own where none is
    /// stored.
    pub fn get_channel_states(&self, peer_id: Option<PeerId>) -> (r: Vec<(PeerId, Hash256, ChannelState)>)
        requires
            self.wf(),
        ensures
            forall|t: int|
                0 <= t < r@.len() ==> stored_phase(self@, (#[trigger] r@[t]).0@, r@[t].1@) is Some
                    && r@[t].2 == listed_phase(self@, r@[t].0@, r@[t].1@) && (peer_id is Some
                    ==> r@[t].0@ == peer_id->Some_0@),
            forall|p: Seq<u8>, id: Seq<u8>|
                id.len() == 32 && #[trigger] stored_phase(self@, p, id) is Some && (peer_id is Some
                    ==> p == peer_id->Some_0@) ==> exists|t: int|
                    0 <= t < r@.len() && (#[trigger] r@[t]).0@ == p && r@[t].1@ == id,
            forall|t1: int, t2: int|
                0 <= t1 < t2 < r@.len() ==> phase_key(#[trigger] r@[t1]) != phase_key(#[trigger] r@[t2]),
            forall|t1: int, t2: int|
                0 <= t1 < t2 < r@.len() ==> key_lt(phase_key(#[trigger] r@[t1]), phase_key(#[trigger] r@[t2])),
    {
        let ghost want: Option<Seq<u8>> = if peer_id is Some {
            Some(peer_id->Some_0@)
        } else {
            None
        };
        let mut r: Vec<(PeerId, Hash256, ChannelState)> = Vec::new();
        let mut i: usize = 0;
        while i < self.entries.len()
            invariant
                0 <= i <= self.entries@.len(),
                self.wf(),
                want == (if peer_id is Some {
                    Some(peer_id->Some_0@)
                } else {
                    None::<Seq<u8>>
                }),
                forall|t: int|
                    0 <= t < r@.len() ==> stored_phase(self@, (#[trigger] r@[t]).0@, r@[t].1@) is Some
                        && r@[t].2 == listed_phase(self@, r@[t].0@, r@[t].1@) && (peer_id is Some
                        ==> r@[t].0@ == peer_id->Some_0@),
                forall|j: int|
                    0 <= j < i && phase_entry_matches(
                        (#[trigger] self.entries@[j]).0@,
                        self.entries@[j].1,
                        want,
                    ) ==> exists|t: int|
                        0 <= t < r@.len() && (#[trigger] r@[t]).0@ == self.entries@[j].0@.subrange(
                            1,
                            self.entries@[j].0@.len() - 32,
                        ) && r@[t].1@ == self.entries@[j].0@.subrange(
                            self.entries@[j].0@.len() - 32,
                            self.entries@[j].0@.len() as int,
                        ),
                forall|t: int|
                    0 <= t < r@.len() ==> exists|j: int|
                        0 <= j < i && self.entries@[j].0@ == phase_key(#[trigger] r@[t]),
                forall|t1: int, t2: int|
                    0 <= t1 < t2 < r@.len() ==> phase_key(#[trigger] r@[t1]) != phase_key(#[trigger] r@[t2]),
                forall|t1: int, t2: int|
                    0 <= t1 < t2 < r@.len() ==> key_lt(phase_key(#[trigger] r@[t1]), phase_key(#[trigger] r@[t2])),
            decreases self.entries@.len() - i,
        {
            let k = &self.entries[i].0;
            let n = k.len();
            let ghost kk = k@;
            let ghost old_r = r@;
            let peer_ok = match &peer_id {
                Some(q) => n >= 33 && n - 33 == q.bytes.len() && starts_with(
                    k.as_slice(),
                    prefixed_key(PEER_ID_CHANNEL_ID_PREFIX, q.bytes.as_slice()).as_slice(),
                ),
                None => true,
            };
            proof {
                if phase_entry_matches(kk, self.entries@[i as int].1, want) && peer_id is Some {
                    let q = peer_id->Some_0;
                    assert(kk.subrange(1, n - 32 as int) == q@);
                    assert(kk.subrange(0, q@.len() + 1 as int) =~= prefixed(PEER_ID_CHANNEL_ID_PREFIX, q@));
                    assert(has_prefix(kk, prefixed(PEER_ID_CHANNEL_ID_PREFIX, q@)));
                    assert(peer_ok);
                }
            }
            if n >= 33 && k[0] == PEER_ID_CHANNEL_ID_PREFIX && peer_ok {
                if let StoredValue::ChannelPhase(st) = &self.entries[i].1 {
                    let p = PeerId { bytes: copy_range(k.as_slice(), 1, n - 32) };
                    let id = read_hash(k.as_slice(), n - 32);
                    proof {
                        assert(k@ =~= prefixed(PEER_ID_CHANNEL_ID_PREFIX, p@ + id@));
                        assert(self@[k@] == self.entries@[i as int].1);
                        if peer_id is Some {
                            let q = peer_id->Some_0;
                            assert(k@.subrange(1, n - 32 as int) =~= k@.subrange(0, q@.len() + 1 as int).subrange(1, q@.len() + 1 as int));
                            assert(q@ =~= prefixed(PEER_ID_CHANNEL_ID_PREFIX, q@).subrange(1, q@.len() + 1 as int));
                        }
                    }
                    let phase = match self.get_channel_actor_state(&id) {
                        Some(full) => full.state,
                        None => *st,
                    };
                    r.push((p, id, phase));
                    proof {
                        let nt = r@.len() - 1;
                        assert(phase_key(r@[nt]) == k@);
                        assert forall|t: int| 0 <= t < r@.len() implies exists|j: int|
                            0 <= j < i + 1 && self.entries@[j].0@ == phase_key(#[trigger] r@[t]) by {
                            if t < nt {
                                assert(r@[t] == old_r[t]);
                                let j = choose|j: int| 0 <= j < i && self.entries@[j].0@ == phase_key(old_r[t]);
                            } else {
                                assert(self.entries@[i as int].0@ == phase_key(r@[t]));
                            }
                        }
                        assert forall|t1: int, t2: int|
                            0 <= t1 < t2 < r@.len() implies phase_key(#[trigger] r@[t1]) != phase_key(#[trigger] r@[t2]) by {
                            assert(r@[t1] == old_r[t1]);
                            if t2 < nt {
                                assert(r@[t2] == old_r[t2]);
                            } else {
                                let j = choose|j: int| 0 <= j < i && self.entries@[j].0@ == phase_key(old_r[t1]);
                                assert(self.entries@[j].0@ != self.entries@[i as int].0@);
                            }
                        }
                        assert forall|t1: int, t2: int|
                            0 <= t1 < t2 < r@.len() implies key_lt(phase_key(#[trigger] r@[t1]), phase_key(#[trigger] r@[t2])) by {
                            assert(r@[t1] == old_r[t1]);
                            if t2 < nt {
                                assert(r@[t2] == old_r[t2]);
                            } else {
                                let j = choose|j: int| 0 <= j < i && self.entries@[j].0@ == phase_key(old_r[t1]);
                                assert(key_lt(self.entries@[j].0@, self.entries@[i as int].0@));
                            }
                        }
                        let t = r@.len() - 1;
                        assert(r@[t].0@ == kk.subrange(1, kk.len() - 32));
                        assert(r@[t].1@ == kk.subrange(kk.len() - 32, kk.len() as int));
                    }
                }
            }
            proof {
                assert forall|j: int|
                    0 <= j < i + 1 && phase_entry_matches(
                        (#[trigger] self.entries@[j]).0@,
                        self.entries@[j].1,
                        want,
                    ) implies exists|t: int|
                        0 <= t < r@.len() && (#[trigger] r@[t]).0@ == self.entries@[j].0@.subrange(
                            1,
                            self.entries@[j].0@.len() - 32,
                        ) && r@[t].1@ == self.entries@[j].0@.subrange(
                            self.entries@[j].0@.len() - 32,
                            self.entries@[j].0@.len() as int,
                        ) by {
                    if j < i {
                        let t = choose|t: int|
                            0 <= t < old_r.len() && (#[trigger] old_r[t]).0@ == self.entries@[j].0@.subrange(
                                1,
                                self.entries@[j].0@.len() - 32,
                            ) && old_r[t].1@ == self.entries@[j].0@.subrange(
                                self.entries@[j].0@.len() - 32,
                                self.entries@[j].0@.len() as int,
                            );
                        assert(r@[t] == old_r[t]);
                    } else {
                        let t = r@.len() - 1;
                        assert(r@[t].0@ == kk.subrange(1, kk.len() - 32));
                    }
                }
            }
            i = i + 1;
        }
        proof {
            assert forall|p: Seq<u8>, id: Seq<u8>|
                id.len() == 32 && #[trigger] stored_phase(self@, p, id) is Some && (peer_id is Some
                    ==> p == peer_id->Some_0@) implies exists|t: int|
                    0 <= t < r@.len() && (#[trigger] r@[t]).0@ == p && r@[t].1@ == id by {
                let kk = prefixed(PEER_ID_CHANNEL_ID_PREFIX, p + id);
                assert(self@.contains_key(kk));
                let j = choose|j: int| 0 <= j < self.entries@.len() && #[trigger] self.entries@[j].0@ == kk;
                assert(kk.subrange(1, kk.len() - 32) =~= p);
                assert(kk.subrange(kk.len() - 32, kk.len() as int) =~= id);
                assert(phase_entry_matches(self.entries@[j].0@, self.entries@[j].1, want));
            }
        }
        r
    }

    /// The recorded addresses of all peers, or of `peer_id`, as
    /// `(peer, address)`, the peer read back from the key `160 ‖ peer`.
    pub fn get_connected_peer(&self, peer_id: Option<PeerId>) -> (r: Vec<(PeerId, Vec<u8>)>)
        requires
            self.wf(),
        ensures
            forall|t: int|
                0 <= t < r@.len() ==> stored_addr(self@, (#[trigger] r@[t]).0@) == Some(r@[t].1@) && (
                peer_id is Some ==> r@[t].0@ == peer_id->Some_0@),
            forall|p: Seq<u8>|
                #[trigger] stored_addr(self@, p) is Some && (peer_id is Some ==> p
                    == peer_id->Some_0@) ==> exists|t: int|
                    0 <= t < r@.len() && (#[trigger] r@[t]).0@ == p,
            forall|t1: int, t2: int|
                0 <= t1 < t2 < r@.len() ==> prefixed(PEER_ID_MULTIADDR_PREFIX, (#[trigger] r@[t1]).0@) != prefixed(PEER_ID_MULTIADDR_PREFIX, (#[trigger] r@[t2]).0@),
            forall|t1: int, t2: int|
                0 <= t1 < t2 < r@.len() ==> key_lt(prefixed(PEER_ID_MULTIADDR_PREFIX, (#[trigger] r@[t1]).0@), prefixed(PEER_ID_MULTIADDR_PREFIX, (#[trigger] r@[t2]).0@)),
    {
        let ghost want: Option<Seq<u8>> = if peer_id is Some {
            Some(peer_id->Some_0@)
        } else {
            None
        };
        let mut r: Vec<(PeerId, Vec<u8>)> = Vec::new();
        let mut i: usize = 0;
        while i < self.entries.len()
            invariant
                0 <= i <= self.entries@.len(),
                self.wf(),
                want == (if peer_id is Some {
                    Some(peer_id->Some_0@)
                } else {
                    None::<Seq<u8>>
                }),
                forall|t: int|
                    0 <= t < r@.len() ==> stored_addr(self@, (#[trigger] r@[t]).0@) == Some(r@[t].1@)
                        && (peer_id is Some ==> r@[t].0@ == peer_id->Some_0@),
                forall|j: int|
                    0 <= j < i && addr_entry_matches(
                        (#[trigger] self.entries@[j]).0@,
                        self.entries@[j].1,
                        want,
                    ) ==> exists|t: int|
                        0 <= t < r@.len() && (#[trigger] r@[t]).0@ == self.entries@[j].0@.subrange(
                            1,
                            self.entries@[j].0@.len() as int,
                        ),
                forall|t: int|
                    0 <= t < r@.len() ==> exists|j: int| 0 <= j < i && self.entries@[j].0@ == prefixed(PEER_ID_MULTIADDR_PREFIX, (#[trigger] r@[t]).0@),
                forall|t1: int, t2: int|
                    0 <= t1 < t2 < r@.len() ==> prefixed(PEER_ID_MULTIADDR_PREFIX, (#[trigger] r@[t1]).0@) != prefixed(PEER_ID_MULTIADDR_PREFIX, (#[trigger] r@[t2]).0@),
                forall|t1: int, t2: int|
                    0 <= t1 < t2 < r@.len() ==> key_lt(prefixed(PEER_ID_MULTIADDR_PREFIX, (#[trigger] r@[t1]).0@), prefixed(PEER_ID_MULTIADDR_PREFIX, (#[trigger] r@[t2]).0@)),
            decreases self.entries@.len() - i,
        {
            let k = &self.entries[i].0;
            let n = k.len();
            let ghost kk = k@;
            let ghost old_r = r@;
            let peer_ok = match &peer_id {
                Some(q) => n >= 1 && n - 1 == q.bytes.len() && starts_with(
                    k.as_slice(),
                    prefixed_key(PEER_ID_MULTIADDR_PREFIX, q.bytes.as_slice()).as_slice(),
                ),
                None => true,
            };
            proof {
                if addr_entry_matches(kk, self.entries@[i as int].1, want) && peer_id is Some {
                    let q = peer_id->Some_0;
                    assert(kk.subrange(1, n as int) == q@);
                    assert(kk.subrange(0, q@.len() + 1 as int) =~= prefixed(PEER_ID_MULTIADDR_PREFIX, q@));
                    assert(has_prefix(kk, prefixed(PEER_ID_MULTIADDR_PREFIX, q@)));
                    assert(peer_ok);
                }
            }
            if n >= 1 && k[0] == PEER_ID_MULTIADDR_PREFIX && peer_ok {
                if let StoredValue::Multiaddr(a) = &self.entries[i].1 {
                    let p = PeerId { bytes: copy_range(k.as_slice(), 1, n) };
                    let addr = copy_range(a.as_slice(), 0, a.len());
                    proof {
                        assert(k@ =~= prefixed(PEER_ID_MULTIADDR_PREFIX, p@));
                        assert(a@.subrange(0, a@.len() as int) =~= a@);
                        assert(self@[k@] == self.entries@[i as int].1);
                        if peer_id is Some {
                            let q = peer_id->Some_0;
                            assert(k@.subrange(1, n as int) =~= k@.subrange(0, q@.len() + 1 as int).subrange(1, q@.len() + 1 as int));
                            assert(q@ =~= prefixed(PEER_ID_MULTIADDR_PREFIX, q@).subrange(1, q@.len() + 1 as int));
                        }
                    }
                    r.push((p, addr));
                    proof {
                        let nt = r@.len() - 1;
                        let kk = self.entries@[i as int].0@;
                        assert(self@.contains_key(kk));
                        assert(layout_ok(kk, self@[kk]));
                        assert forall|t: int| 0 <= t < r@.len() implies exists|j: int|
                            0 <= j < i + 1 && self.entries@[j].0@ == prefixed(PEER_ID_MULTIADDR_PREFIX, (#[trigger] r@[t]).0@) by {
                            if t < nt {
                                assert(r@[t] == old_r[t]);
                            } else {
                                assert(self.entries@[i as int].0@ == prefixed(PEER_ID_MULTIADDR_PREFIX, (#[trigger] r@[t]).0@));
                            }
                        }
                        assert forall|t1: int, t2: int|
                            0 <= t1 < t2 < r@.len() implies prefixed(PEER_ID_MULTIADDR_PREFIX, (#[trigger] r@[t1]).0@) != prefixed(PEER_ID_MULTIADDR_PREFIX, (#[trigger] r@[t2]).0@) by {
                            assert(r@[t1] == old_r[t1]);
                            if t2 < nt {
                                assert(r@[t2] == old_r[t2]);
                            } else {
                                let j = choose|j: int| 0 <= j < i && self.entries@[j].0@ == prefixed(PEER_ID_MULTIADDR_PREFIX, (r@[t1]).0@);
                                assert(self.entries@[j].0@ != self.entries@[i as int].0@);
                            }
                        }
                        assert forall|t1: int, t2: int|
                            0 <= t1 < t2 < r@.len() implies key_lt(prefixed(PEER_ID_MULTIADDR_PREFIX, (#[trigger] r@[t1]).0@), prefixed(PEER_ID_MULTIADDR_PREFIX, (#[trigger] r@[t2]).0@)) by {
                            assert(r@[t1] == old_r[t1]);
                            if t2 < nt {
                                assert(r@[t2] == old_r[t2]);
                            } else {
                                let j = choose|j: int| 0 <= j < i && self.entries@[j].0@ == prefixed(PEER_ID_MULTIADDR_PREFIX, (r@[t1]).0@);
                                assert(key_lt(self.entries@[j].0@, self.entries@[i as int].0@));
                            }
                        }
                    }
                    proof {
                        let t = r@.len() - 1;
                        assert(r@[t].0@ == kk.subrange(1, kk.len() as int));
                    }
                }
            }
            proof {
                assert forall|j: int|
                    0 <= j < i + 1 && addr_entry_matches(
                        (#[trigger] self.entries@[j]).0@,
                        self.entries@[j].1,
                        want,
                    ) implies exists|t: int|
                        0 <= t < r@.len() && (#[trigger] r@[t]).0@ == self.entries@[j].0@.subrange(
                            1,
                            self.entries@[j].0@.len() as int,
                        ) by {
                    if j < i {
                        let t = choose|t: int|
                            0 <= t < old_r.len() && (#[trigger] old_r[t]).0@ == self.entries@[j].0@.subrange(
                                1,
                                self.entries@[j].0@.len() as int,
                            );
                        assert(r@[t] == old_r[t]);
                    } else {
                        let t = r@.len() - 1;
                        assert(r@[t].0@ == kk.subrange(1, kk.len() as int));
                    }
                }
            }
            i = i + 1;
        }
        proof {
            assert forall|p: Seq<u8>|
                #[trigger] stored_addr(self@, p) is Some && (peer_id is Some ==> p
                    == peer_id->Some_0@) implies exists|t: int|
                    0 <= t < r@.len() && (#[trigger] r@[t]).0@ == p by {
                let kk = prefixed(PEER_ID_MULTIADDR_PREFIX, p);
                assert(self@.contains_key(kk));
                let j = choose|j: int| 0 <= j < self.entries@.len() && #[trigger] self.entries@[j].0@ == kk;
                assert(kk.subrange(1, kk.len() as int) =~= p);
                assert(addr_entry_matches(self.entries@[j].0@, self.entries@[j].1, want));
            }
        }
        r
    }
}


/// Keys of graph channels: all of them, or the one of `op`.
pub open spec fn channel_scan_prefix(op: Option<OutPoint>) -> Seq<u8> {
    match op {
        Some(o) => prefixed(CHANNEL_INFO_PREFIX, o@),
        None => seq![CHANNEL_INFO_PREFIX],
    }
}

/// Keys of graph nodes: all of them, or the one of `id`.
pub open spec fn node_scan_prefix(id: Option<Pubkey>) -> Seq<u8> {
    match id {
        Some(n) => prefixed(NODE_INFO_PREFIX, n@),
        None => seq![NODE_INFO_PREFIX],
    }
}

/// Some key under `prefix` holds graph channel `c`.
pub open spec fn holds_channel(m: Map<Seq<u8>, StoredValue>, prefix: Seq<u8>, c: ChannelInfo) -> bool {
    exists|k: Seq<u8>|
        m.contains_key(k) && has_prefix(k, prefix) && #[trigger] m[k] == StoredValue::ChannelInfo(c)
}

/// Some key under `prefix` holds graph node `n`.
pub open spec fn holds_node(m: Map<Seq<u8>, StoredValue>, prefix: Seq<u8>, n: NodeInfo) -> bool {
    exists|k: Seq<u8>|
        m.contains_key(k) && has_prefix(k, prefix) && #[trigger] m[k] == StoredValue::NodeInfo(n)
}

/// The address recorded for peer `p`, if any.
pub open spec fn stored_addr(m: Map<Seq<u8>, StoredValue>, p: Seq<u8>) -> Option<Seq<u8>> {
    let k = prefixed(PEER_ID_MULTIADDR_PREFIX, p);
    if m.contains_key(k) && m[k] is Multiaddr {
        Some(m[k]->Multiaddr_0@)
    } else {
        None
    }
}

/// An address entry `160 ‖ peer`, for the requested peer if one is given.
pub open spec fn addr_entry_matches(k: Seq<u8>, v: StoredValue, peer: Option<Seq<u8>>) -> bool {
    &&& k.len() >= 1
    &&& k[0] == PEER_ID_MULTIADDR_PREFIX
    &&& v is Multiaddr
    &&& peer is Some ==> k.subrange(1, k.len() as int) == peer->Some_0
}

/// Builds the byte encoding of an out-point.
pub fn outpoint_bytes(op: &OutPoint) -> (r: Vec<u8>)
    ensures
        r@ == op@,
{
    let mut v = copy_range(op.tx_hash.bytes.as_slice(), 0, 32);
    proof {
        assert(op.tx_hash.bytes@.subrange(0, 32) =~= op.tx_hash@);
    }
    crate::keys::push_le_u32(&mut v, op.index);
    v
}

impl Store {
    /// The stored graph channels, all of them or the one of `channel_id`.
    pub fn get_channels(&self, channel_id: Option<OutPoint>) -> (r: Vec<ChannelInfo>)
        requires
            self.wf(),
        ensures
            forall|t: int| 0 <= t < r@.len() ==> holds_channel(self@, channel_scan_prefix(channel_id), #[trigger] r@[t]),
            forall|k: Seq<u8>|
                #![trigger self@[k]]
                self@.contains_key(k) && has_prefix(k, channel_scan_prefix(channel_id))
                    && self@[k] is ChannelInfo ==> exists|t: int|
                    0 <= t < r@.len() && #[trigger] r@[t] == self@[k]->ChannelInfo_0,
            forall|t1: int, t2: int|
                0 <= t1 < t2 < r@.len() ==> prefixed(CHANNEL_INFO_PREFIX, (#[trigger] r@[t1]).out_point@) != prefixed(CHANNEL_INFO_PREFIX, (#[trigger] r@[t2]).out_point@),
            forall|t1: int, t2: int|
                0 <= t1 < t2 < r@.len() ==> key_lt(prefixed(CHANNEL_INFO_PREFIX, (#[trigger] r@[t1]).out_point@), prefixed(CHANNEL_INFO_PREFIX, (#[trigger] r@[t2]).out_point@)),
    {
        let prefix = match channel_id {
            Some(op) => {
                let b = outpoint_bytes(&op);
                prefixed_key(CHANNEL_INFO_PREFIX, b.as_slice())
            },
            None => prefixed_key(CHANNEL_INFO_PREFIX, &[]),
        };
        proof {
            assert(prefix@ =~= channel_scan_prefix(channel_id));
        }
        let mut r: Vec<ChannelInfo> = Vec::new();
        let mut i: usize = 0;
        while i < self.entries.len()
            invariant
                0 <= i <= self.entries@.len(),
                self.wf(),
                prefix@ == channel_scan_prefix(channel_id),
                forall|t: int| 0 <= t < r@.len() ==> holds_channel(self@, channel_scan_prefix(channel_id), #[trigger] r@[t]),
                forall|j: int|
                    0 <= j < i && has_prefix((#[trigger] self.entries@[j]).0@, prefix@)
                        && self.entries@[j].1 is ChannelInfo ==> exists|t: int|
                        0 <= t < r@.len() && #[trigger] r@[t] == self.entries@[j].1->ChannelInfo_0,
                forall|t: int|
                    0 <= t < r@.len() ==> exists|j: int| 0 <= j < i && self.entries@[j].0@ == prefixed(CHANNEL_INFO_PREFIX, (#[trigger] r@[t]).out_point@),
                forall|t1: int, t2: int|
                    0 <= t1 < t2 < r@.len() ==> prefixed(CHANNEL_INFO_PREFIX, (#[trigger] r@[t1]).out_point@) != prefixed(CHANNEL_INFO_PREFIX, (#[trigger] r@[t2]).out_point@),
                forall|t1: int, t2: int|
                    0 <= t1 < t2 < r@.len() ==> key_lt(prefixed(CHANNEL_INFO_PREFIX, (#[trigger] r@[t1]).out_point@), prefixed(CHANNEL_INFO_PREFIX, (#[trigger] r@[t2]).out_point@)),
            decreases self.entries@.len() - i,
        {
            let ghost old_r = r@;
            if starts_with(self.entries[i].0.as_slice(), prefix.as_slice()) {
                if let StoredValue::ChannelInfo(c) = &self.entries[i].1 {
                    proof {
                        assert(self@[self.entries@[i as int].0@] == self.entries@[i as int].1);
                    }
                    r.push(*c);
                    proof {
                        let nt = r@.len() - 1;
                        let kk = self.entries@[i as int].0@;
                        assert(self@.contains_key(kk));
                        assert(layout_ok(kk, self@[kk]));
                        assert forall|t: int| 0 <= t < r@.len() implies exists|j: int|
                            0 <= j < i + 1 && self.entries@[j].0@ == prefixed(CHANNEL_INFO_PREFIX, (#[trigger] r@[t]).out_point@) by {
                            if t < nt {
                                assert(r@[t] == old_r[t]);
                            } else {
                                assert(self.entries@[i as int].0@ == prefixed(CHANNEL_INFO_PREFIX, (#[trigger] r@[t]).out_point@));
                            }
                        }
                        assert forall|t1: int, t2: int|
                            0 <= t1 < t2 < r@.len() implies prefixed(CHANNEL_INFO_PREFIX, (#[trigger] r@[t1]).out_point@) != prefixed(CHANNEL_INFO_PREFIX, (#[trigger] r@[t2]).out_point@) by {
                            assert(r@[t1] == old_r[t1]);
                            if t2 < nt {
                                assert(r@[t2] == old_r[t2]);
                            } else {
                                let j = choose|j: int| 0 <= j < i && self.entries@[j].0@ == prefixed(CHANNEL_INFO_PREFIX, (r@[t1]).out_point@);
                                assert(self.entries@[j].0@ != self.entries@[i as int].0@);
                            }
                        }
                        assert forall|t1: int, t2: int|
                            0 <= t1 < t2 < r@.len() implies key_lt(prefixed(CHANNEL_INFO_PREFIX, (#[trigger] r@[t1]).out_point@), prefixed(CHANNEL_INFO_PREFIX, (#[trigger] r@[t2]).out_point@)) by {
                            assert(r@[t1] == old_r[t1]);
                            if t2 < nt {
                                assert(r@[t2] == old_r[t2]);
                            } else {
                                let j = choose|j: int| 0 <= j < i && self.entries@[j].0@ == prefixed(CHANNEL_INFO_PREFIX, (r@[t1]).out_point@);
                                assert(key_lt(self.entries@[j].0@, self.entries@[i as int].0@));
                            }
                        }
                    }
                }
            }
            proof {
                assert forall|t: int| 0 <= t < r@.len() implies holds_channel(self@, channel_scan_prefix(channel_id), #[trigger] r@[t]) by {
                    if t < old_r.len() {
                        assert(r@[t] == old_r[t]);
                    } else {
                        let k = self.entries@[i as int].0@;
                        assert(self@.contains_key(k));
                        assert(self@[k] == StoredValue::ChannelInfo(r@[t]));
                    }
                }
                assert forall|j: int|
                    0 <= j < i + 1 && has_prefix((#[trigger] self.entries@[j]).0@, prefix@)
                        && self.entries@[j].1 is ChannelInfo implies exists|t: int|
                        0 <= t < r@.len() && #[trigger] r@[t] == self.entries@[j].1->ChannelInfo_0 by {
                    if j < i {
                        let t = choose|t: int|
                            0 <= t < old_r.len() && #[trigger] old_r[t]
                                == self.entries@[j].1->ChannelInfo_0;
                        assert(r@[t] == old_r[t]);
                    } else {
                        assert(r@[r@.len() - 1] == self.entries@[j].1->ChannelInfo_0);
                    }
                }
            }
            i = i + 1;
        }
        proof {
            assert forall|k: Seq<u8>|
                #![trigger self@[k]]
                self@.contains_key(k) && has_prefix(k, channel_scan_prefix(channel_id))
                    && self@[k] is ChannelInfo implies exists|t: int|
                    0 <= t < r@.len() && #[trigger] r@[t] == self@[k]->ChannelInfo_0 by {
                let j = choose|j: int| 0 <= j < self.entries@.len() && #[trigger] self.entries@[j].0@ == k;
                assert(self@[self.entries@[j].0@] == self.entries@[j].1);
            }
        }
        r
    }

    /// The stored graph nodes, all of them or the one of `node_id`.
    pub fn get_nodes(&self, node_id: Option<Pubkey>) -> (r: Vec<&NodeInfo>)
        requires
            self.wf(),
        ensures
            forall|t: int| 0 <= t < r@.len() ==> holds_node(self@, node_scan_prefix(node_id), *#[trigger] r@[t]),
            forall|k: Seq<u8>|
                #![trigger self@[k]]
                self@.contains_key(k) && has_prefix(k, node_scan_prefix(node_id))
                    && self@[k] is NodeInfo ==> exists|t: int|
                    0 <= t < r@.len() && *#[trigger] r@[t] == self@[k]->NodeInfo_0,
            forall|t1: int, t2: int|
                0 <= t1 < t2 < r@.len() ==> prefixed(NODE_INFO_PREFIX, (#[trigger] r@[t1]).node_id@) != prefixed(NODE_INFO_PREFIX, (#[trigger] r@[t2]).node_id@),
            forall|t1: int, t2: int|
                0 <= t1 < t2 < r@.len() ==> key_lt(prefixed(NODE_INFO_PREFIX, (#[trigger] r@[t1]).node_id@), prefixed(NODE_INFO_PREFIX, (#[trigger] r@[t2]).node_id@)),
    {
        let prefix = match node_id {
            Some(n) => prefixed_key(NODE_INFO_PREFIX, n.bytes.as_slice()),
            None => prefixed_key(NODE_INFO_PREFIX, &[]),
        };
        proof {
            assert(prefix@ =~= node_scan_prefix(node_id));
        }
        let mut r: Vec<&NodeInfo> = Vec::new();
        let mut i: usize = 0;
        while i < self.entries.len()
            invariant
                0 <= i <= self.entries@.len(),
                self.wf(),
                prefix@ == node_scan_prefix(node_id),
                forall|t: int| 0 <= t < r@.len() ==> holds_node(self@, node_scan_prefix(node_id), *#[trigger] r@[t]),
                forall|j: int|
                    0 <= j < i && has_prefix((#[trigger] self.entries@[j]).0@, prefix@)
                        && self.entries@[j].1 is NodeInfo ==> exists|t: int|
                        0 <= t < r@.len() && *#[trigger] r@[t] == self.entries@[j].1->NodeInfo_0,
                forall|t: int|
                    0 <= t < r@.len() ==> exists|j: int| 0 <= j < i && self.entries@[j].0@ == prefixed(NODE_INFO_PREFIX, (#[trigger] r@[t]).node_id@),
                forall|t1: int, t2: int|
                    0 <= t1 < t2 < r@.len() ==> prefixed(NODE_INFO_PREFIX, (#[trigger] r@[t1]).node_id@) != prefixed(NODE_INFO_PREFIX, (#[trigger] r@[t2]).node_id@),
                forall|t1: int, t2: int|
                    0 <= t1 < t2 < r@.len() ==> key_lt(prefixed(NODE_INFO_PREFIX, (#[trigger] r@[t1]).node_id@), prefixed(NODE_INFO_PREFIX, (#[trigger] r@[t2]).node_id@)),
            decreases self.entries@.len() - i,
        {
            let ghost old_r = r@;
            if starts_with(self.entries[i].0.as_slice(), prefix.as_slice()) {
                if let StoredValue::NodeInfo(c) = &self.entries[i].1 {
                    proof {
                        assert(self@[self.entries@[i as int].0@] == self.entries@[i as int].1);
                    }
                    r.push(c);
                    proof {
                        let nt = r@.len() - 1;
                        let kk = self.entries@[i as int].0@;
                        assert(self@.contains_key(kk));
                        assert(layout_ok(kk, self@[kk]));
                        assert forall|t: int| 0 <= t < r@.len() implies exists|j: int|
                            0 <= j < i + 1 && self.entries@[j].0@ == prefixed(NODE_INFO_PREFIX, (#[trigger] r@[t]).node_id@) by {
                            if t < nt {
                                assert(r@[t] == old_r[t]);
                            } else {
                                assert(self.entries@[i as int].0@ == prefixed(NODE_INFO_PREFIX, (#[trigger] r@[t]).node_id@));
                            }
                        }
                        assert forall|t1: int, t2: int|
                            0 <= t1 < t2 < r@.len() implies prefixed(NODE_INFO_PREFIX, (#[trigger] r@[t1]).node_id@) != prefixed(NODE_INFO_PREFIX, (#[trigger] r@[t2]).node_id@) by {
                            assert(r@[t1] == old_r[t1]);
                            if t2 < nt {
                                assert(r@[t2] == old_r[t2]);
                            } else {
                                let j = choose|j: int| 0 <= j < i && self.entries@[j].0@ == prefixed(NODE_INFO_PREFIX, (r@[t1]).node_id@);
                                assert(self.entries@[j].0@ != self.entries@[i as int].0@);
                            }
                        }
                        assert forall|t1: int, t2: int|
                            0 <= t1 < t2 < r@.len() implies key_lt(prefixed(NODE_INFO_PREFIX, (#[trigger] r@[t1]).node_id@), prefixed(NODE_INFO_PREFIX, (#[trigger] r@[t2]).node_id@)) by {
                            assert(r@[t1] == old_r[t1]);
                            if t2 < nt {
                                assert(r@[t2] == old_r[t2]);
                            } else {
                                let j = choose|j: int| 0 <= j < i && self.entries@[j].0@ == prefixed(NODE_INFO_PREFIX, (r@[t1]).node_id@);
                                assert(key_lt(self.entries@[j].0@, self.entries@[i as int].0@));
                            }
                        }
                    }
                }
            }
            proof {
                assert forall|t: int| 0 <= t < r@.len() implies holds_node(self@, node_scan_prefix(node_id), *#[trigger] r@[t]) by {
                    if t < old_r.len() {
                        assert(r@[t] == old_r[t]);
                    } else {
                        let k = self.entries@[i as int].0@;
                        assert(self@.contains_key(k));
                        assert(self@[k] == StoredValue::NodeInfo(*r@[t]));
                    }
                }
                assert forall|j: int|
                    0 <= j < i + 1 && has_prefix((#[trigger] self.entries@[j]).0@, prefix@)
                        && self.entries@[j].1 is NodeInfo implies exists|t: int|
                        0 <= t < r@.len() && *#[trigger] r@[t] == self.entries@[j].1->NodeInfo_0 by {
                    if j < i {
                        let t = choose|t: int|
                            0 <= t < old_r.len() && *#[trigger] old_r[t]
                                == self.entries@[j].1->NodeInfo_0;
                        assert(r@[t] == old_r[t]);
                    } else {
                        assert(*r@[r@.len() - 1] == self.entries@[j].1->NodeInfo_0);
                    }
                }
            }
            i = i + 1;
        }
        proof {
            assert forall|k: Seq<u8>|
                #![trigger self@[k]]
                self@.contains_key(k) && has_prefix(k, node_scan_prefix(node_id))
                    && self@[k] is NodeInfo implies exists|t: int|
                    0 <= t < r@.len() && *#[trigger] r@[t] == self@[k]->NodeInfo_0 by {
                let j = choose|j: int| 0 <= j < self.entries@.len() && #[trigger] self.entries@[j].0@ == k;
                assert(self@[self.entries@[j].0@] == self.entries@[j].1);
            }
        }
        r
    }
}

impl Store {
    /// The ids of the channels recorded for `peer_id`.
    pub fn get_channel_ids_by_peer(&self, peer_id: &PeerId) -> (r: Vec<Hash256>)
        requires
            self.wf(),
        ensures
            forall|t: int|
                0 <= t < r@.len() ==> stored_phase(self@, peer_id@, (#[trigger] r@[t])@) is Some,
            forall|id: Seq<u8>|
                id.len() == 32 && #[trigger] stored_phase(self@, peer_id@, id) is Some
                    ==> exists|t: int| 0 <= t < r@.len() && (#[trigger] r@[t])@ == id,
            forall|t1: int, t2: int| 0 <= t1 < t2 < r@.len() ==> (#[trigger] r@[t1])@ != (#[trigger] r@[t2])@,
            forall|t1: int, t2: int| 0 <= t1 < t2 < r@.len() ==> key_lt((#[trigger] r@[t1])@, (#[trigger] r@[t2])@),
    {
        let q = PeerId { bytes: copy_range(peer_id.bytes.as_slice(), 0, peer_id.bytes.len()) };
        proof {
            assert(q@ =~= peer_id@);
        }
        let states = self.get_channel_states(Some(q));
        let mut r: Vec<Hash256> = Vec::new();
        let mut i: usize = 0;
        while i < states.len()
            invariant
                0 <= i <= states@.len(),
                r@.len() == i,
                forall|t: int| 0 <= t < i ==> (#[trigger] r@[t]) == states@[t].1,
            decreases states@.len() - i,
        {
            r.push(states[i].1);
            i = i + 1;
        }
        proof {
            assert forall|t1: int, t2: int| 0 <= t1 < t2 < r@.len() implies key_lt(
                (#[trigger] r@[t1])@,
                (#[trigger] r@[t2])@,
            ) by {
                assert(r@[t1] == states@[t1].1 && r@[t2] == states@[t2].1);
                assert(key_lt(phase_key(states@[t1]), phase_key(states@[t2])));
                let pre = seq![PEER_ID_CHANNEL_ID_PREFIX] + peer_id@;
                assert(phase_key(states@[t1]) =~= pre + states@[t1].1@);
                assert(phase_key(states@[t2]) =~= pre + states@[t2].1@);
                lemma_key_lt_common_prefix(pre, states@[t1].1@, states@[t2].1@);
            }
            assert forall|t1: int, t2: int| 0 <= t1 < t2 < r@.len() implies (#[trigger] r@[t1])@
                != (#[trigger] r@[t2])@ by {
                assert(r@[t1] == states@[t1].1 && r@[t2] == states@[t2].1);
                assert(phase_key(states@[t1]) != phase_key(states@[t2]));
                assert(states@[t1].0@ == peer_id@ && states@[t2].0@ == q@);
            }
            assert forall|id: Seq<u8>|
                id.len() == 32 && #[trigger] stored_phase(self@, peer_id@, id) is Some
                    implies exists|t: int| 0 <= t < r@.len() && (#[trigger] r@[t])@ == id by {
                let t = choose|t: int|
                    0 <= t < states@.len() && (#[trigger] states@[t]).0@ == peer_id@ && states@[t].1@ == id;
                assert(r@[t] == states@[t].1);
            }
            assert forall|t: int|
                0 <= t < r@.len() implies stored_phase(self@, peer_id@, (#[trigger] r@[t])@) is Some by {
                assert(r@[t] == states@[t].1);
                assert(stored_phase(self@, states@[t].0@, states@[t].1@) is Some);
            }
        }
        r
    }
}

} // verus!
