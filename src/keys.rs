use vstd::prelude::*;

use crate::types::{Hash256, PeerId, Pubkey};

verus! {

pub const CHANNEL_ACTOR_STATE_PREFIX: u8 = 0;
pub const CKB_INVOICE_PREFIX: u8 = 32;
pub const CKB_INVOICE_PREIMAGE_PREFIX: u8 = 33;
pub const PEER_ID_CHANNEL_ID_PREFIX: u8 = 64;
pub const CHANNEL_INFO_PREFIX: u8 = 96;
pub const CHANNEL_ANNOUNCEMENT_INDEX_PREFIX: u8 = 97;
pub const CHANNEL_UPDATE_INDEX_PREFIX: u8 = 98;
pub const NODE_INFO_PREFIX: u8 = 128;
pub const NODE_ANNOUNCEMENT_INDEX_PREFIX: u8 = 129;
pub const PEER_ID_MULTIADDR_PREFIX: u8 = 160;
pub const PAYMENT_SESSION_PREFIX: u8 = 192;

/// A funding output on chain: the funding transaction and the output index.
#[derive(Clone, Copy, Debug, PartialEq, Eq)]
pub struct OutPoint {
    pub tx_hash: Hash256,
    pub index: u32,
}

/// Big-endian bytes of a 64-bit integer.
pub open spec fn be_u64(n: u64) -> Seq<u8> {
    seq![
        (n >> 56u64) as u8,
        (n >> 48u64) as u8,
        (n >> 40u64) as u8,
        (n >> 32u64) as u8,
        (n >> 24u64) as u8,
        (n >> 16u64) as u8,
        (n >> 8u64) as u8,
        n as u8,
    ]
}

/// Big-endian bytes of a 32-bit integer.
pub open spec fn be_u32(n: u32) -> Seq<u8> {
    seq![(n >> 24u32) as u8, (n >> 16u32) as u8, (n >> 8u32) as u8, n as u8]
}

/// Little-endian bytes of a 32-bit integer.
pub open spec fn le_u32(n: u32) -> Seq<u8> {
    seq![n as u8, (n >> 8u32) as u8, (n >> 16u32) as u8, (n >> 24u32) as u8]
}

impl View for OutPoint {
    type V = Seq<u8>;

    /// The molecule encoding: the transaction hash, then the index in
    /// little-endian order.
    open spec fn view(&self) -> Seq<u8> {
        self.tx_hash@ + le_u32(self.index)
    }
}

impl OutPoint {
    /// Equality of two out-points.
    pub fn equals(&self, other: &OutPoint) -> (r: bool)
        ensures
            r == (self.tx_hash@ == other.tx_hash@ && self.index == other.index),
    {
        self.tx_hash.equals(&other.tx_hash) && self.index == other.index
    }
}

/// Appends `src` to `dst`.
pub fn append_bytes(dst: &mut Vec<u8>, src: &[u8])
    ensures
        final(dst)@ == old(dst)@ + src@,
{
    let mut i: usize = 0;
    while i < src.len()
        invariant
            0 <= i <= src@.len(),
            dst@ == old(dst)@ + src@.subrange(0, i as int),
        decreases src@.len() - i,
    {
        dst.push(src[i]);
        i = i + 1;
        assert(src@.subrange(0, i as int) =~= src@.subrange(0, i - 1 as int).push(src@[i - 1]));
    }
    assert(src@.subrange(0, src@.len() as int) =~= src@);
}

/// Copies `src[lo..hi]` into a new vector.
pub fn copy_range(src: &[u8], lo: usize, hi: usize) -> (r: Vec<u8>)
    requires
        lo <= hi <= src@.len(),
    ensures
        r@ == src@.subrange(lo as int, hi as int),
{
    let mut r: Vec<u8> = Vec::new();
    let mut i: usize = lo;
    while i < hi
        invariant
            lo <= i <= hi <= src@.len(),
            r@ == src@.subrange(lo as int, i as int),
        decreases hi - i,
    {
        r.push(src[i]);
        i = i + 1;
        assert(r@ =~= src@.subrange(lo as int, i as int));
    }
    r
}

/// Reads a 32-byte identifier from `src[lo..lo + 32]`.
pub fn read_hash(src: &[u8], lo: usize) -> (r: Hash256)
    requires
        lo + 32 <= src@.len(),
    ensures
        r@ == src@.subrange(lo as int, lo + 32),
{
    let mut bytes = [0u8; 32];
    let n: usize = src.len();
    let mut i: usize = 0;
    while i < 32
        invariant
            0 <= i <= 32,
            n == src@.len(),
            lo + 32 <= src@.len(),
            bytes@.len() == 32,
            forall|j: int| 0 <= j < i ==> bytes@[j] == src@[lo + j],
        decreases 32 - i,
    {
        bytes[i] = src[lo + i];
        i = i + 1;
    }
    let r = Hash256 { bytes };
    assert(r@ =~= src@.subrange(lo as int, lo + 32));
    r
}

pub fn push_be_u64(dst: &mut Vec<u8>, n: u64)
    ensures
        final(dst)@ == old(dst)@ + be_u64(n),
{
    dst.push((n >> 56u64) as u8);
    dst.push((n >> 48u64) as u8);
    dst.push((n >> 40u64) as u8);
    dst.push((n >> 32u64) as u8);
    dst.push((n >> 24u64) as u8);
    dst.push((n >> 16u64) as u8);
    dst.push((n >> 8u64) as u8);
    dst.push(n as u8);
    assert(dst@ =~= old(dst)@ + be_u64(n));
}

pub fn push_be_u32(dst: &mut Vec<u8>, n: u32)
    ensures
        final(dst)@ == old(dst)@ + be_u32(n),
{
    dst.push((n >> 24u32) as u8);
    dst.push((n >> 16u32) as u8);
    dst.push((n >> 8u32) as u8);
    dst.push(n as u8);
    assert(dst@ =~= old(dst)@ + be_u32(n));
}

pub fn push_le_u32(dst: &mut Vec<u8>, n: u32)
    ensures
        final(dst)@ == old(dst)@ + le_u32(n),
{
    dst.push(n as u8);
    dst.push((n >> 8u32) as u8);
    dst.push((n >> 16u32) as u8);
    dst.push((n >> 24u32) as u8);
    assert(dst@ =~= old(dst)@ + le_u32(n));
}

/// A one-byte prefix followed by `suffix`.
pub open spec fn prefixed(prefix: u8, suffix: Seq<u8>) -> Seq<u8> {
    seq![prefix] + suffix
}

/// Builds `prefix ‖ suffix`.
pub fn prefixed_key(prefix: u8, suffix: &[u8]) -> (r: Vec<u8>)
    ensures
        r@ == prefixed(prefix, suffix@),
{
    let mut k: Vec<u8> = Vec::new();
    k.push(prefix);
    append_bytes(&mut k, suffix);
    assert(k@ =~= prefixed(prefix, suffix@));
    k
}

/// Key of a channel's full state: `0 ‖ channel_id`.
pub fn channel_actor_state_key(id: &Hash256) -> (r: Vec<u8>)
    ensures
        r@ == prefixed(CHANNEL_ACTOR_STATE_PREFIX, id@),
{
    prefixed_key(CHANNEL_ACTOR_STATE_PREFIX, id.bytes.as_slice())
}

/// Key of an invoice: `32 ‖ payment_hash`.
pub fn invoice_key(hash: &Hash256) -> (r: Vec<u8>)
    ensures
        r@ == prefixed(CKB_INVOICE_PREFIX, hash@),
{
    prefixed_key(CKB_INVOICE_PREFIX, hash.bytes.as_slice())
}

/// Key of an invoice's preimage: `33 ‖ payment_hash`.
pub fn invoice_preimage_key(hash: &Hash256) -> (r: Vec<u8>)
    ensures
        r@ == prefixed(CKB_INVOICE_PREIMAGE_PREFIX, hash@),
{
    prefixed_key(CKB_INVOICE_PREIMAGE_PREFIX, hash.bytes.as_slice())
}

/// Key of a channel's phase by peer: `64 ‖ peer_id ‖ channel_id`.
pub fn peer_channel_key(peer: &PeerId, id: &Hash256) -> (r: Vec<u8>)
    ensures
        r@ == prefixed(PEER_ID_CHANNEL_ID_PREFIX, peer@ + id@),
{
    let mut k = prefixed_key(PEER_ID_CHANNEL_ID_PREFIX, peer.bytes.as_slice());
    append_bytes(&mut k, id.bytes.as_slice());
    assert(k@ =~= prefixed(PEER_ID_CHANNEL_ID_PREFIX, peer@ + id@));
    k
}

/// Key of a graph channel: `96 ‖ out_point`.
pub fn channel_info_key(op: &OutPoint) -> (r: Vec<u8>)
    ensures
        r@ == prefixed(CHANNEL_INFO_PREFIX, op@),
{
    let mut k = prefixed_key(CHANNEL_INFO_PREFIX, op.tx_hash.bytes.as_slice());
    push_le_u32(&mut k, op.index);
    assert(k@ =~= prefixed(CHANNEL_INFO_PREFIX, op@));
    k
}

/// Index key of a channel announcement: `97 ‖ block_number ‖ tx_index`,
/// both big-endian.
pub fn channel_announcement_index_key(block_number: u64, tx_index: u32) -> (r: Vec<u8>)
    ensures
        r@ == prefixed(CHANNEL_ANNOUNCEMENT_INDEX_PREFIX, be_u64(block_number) + be_u32(tx_index)),
{
    let mut k: Vec<u8> = Vec::new();
    k.push(CHANNEL_ANNOUNCEMENT_INDEX_PREFIX);
    push_be_u64(&mut k, block_number);
    push_be_u32(&mut k, tx_index);
    assert(k@ =~= prefixed(
        CHANNEL_ANNOUNCEMENT_INDEX_PREFIX,
        be_u64(block_number) + be_u32(tx_index),
    ));
    k
}

/// Index key of a channel update: `98 ‖ timestamp`, big-endian.
pub fn channel_update_index_key(timestamp: u64) -> (r: Vec<u8>)
    ensures
        r@ == prefixed(CHANNEL_UPDATE_INDEX_PREFIX, be_u64(timestamp)),
{
    let mut k: Vec<u8> = Vec::new();
    k.push(CHANNEL_UPDATE_INDEX_PREFIX);
    push_be_u64(&mut k, timestamp);
    assert(k@ =~= prefixed(CHANNEL_UPDATE_INDEX_PREFIX, be_u64(timestamp)));
    k
}

/// Key of a graph node: `128 ‖ pubkey`.
pub fn node_info_key(node_id: &Pubkey) -> (r: Vec<u8>)
    ensures
        r@ == prefixed(NODE_INFO_PREFIX, node_id@),
{
    prefixed_key(NODE_INFO_PREFIX, node_id.bytes.as_slice())
}

/// Index key of a node announcement: `129 ‖ timestamp`, big-endian.
pub fn node_announcement_index_key(timestamp: u64) -> (r: Vec<u8>)
    ensures
        r@ == prefixed(NODE_ANNOUNCEMENT_INDEX_PREFIX, be_u64(timestamp)),
{
    let mut k: Vec<u8> = Vec::new();
    k.push(NODE_ANNOUNCEMENT_INDEX_PREFIX);
    push_be_u64(&mut k, timestamp);
    assert(k@ =~= prefixed(NODE_ANNOUNCEMENT_INDEX_PREFIX, be_u64(timestamp)));
    k
}

/// Key of a peer's address: `160 ‖ peer_id`.
pub fn peer_addr_key(peer: &PeerId) -> (r: Vec<u8>)
    ensures
        r@ == prefixed(PEER_ID_MULTIADDR_PREFIX, peer@),
{
    prefixed_key(PEER_ID_MULTIADDR_PREFIX, peer.bytes.as_slice())
}

/// Key of a payment session: `192 ‖ payment_hash`.
pub fn payment_session_key(hash: &Hash256) -> (r: Vec<u8>)
    ensures
        r@ == prefixed(PAYMENT_SESSION_PREFIX, hash@),
{
    prefixed_key(PAYMENT_SESSION_PREFIX, hash.bytes.as_slice())
}


/// Byte-wise lexicographic order on keys: the order in which the store
/// keeps and scans them.
pub open spec fn key_lt(a: Seq<u8>, b: Seq<u8>) -> bool
    decreases a.len(),
{
    if a.len() == 0 {
        b.len() > 0
    } else if b.len() == 0 {
        false
    } else if a[0] != b[0] {
        a[0] < b[0]
    } else {
        key_lt(a.drop_first(), b.drop_first())
    }
}

pub proof fn lemma_key_lt_irrefl(a: Seq<u8>)
    ensures
        !key_lt(a, a),
    decreases a.len(),
{
    if a.len() > 0 {
        lemma_key_lt_irrefl(a.drop_first());
    }
}

pub proof fn lemma_key_lt_trans(a: Seq<u8>, b: Seq<u8>, c: Seq<u8>)
    requires
        key_lt(a, b),
        key_lt(b, c),
    ensures
        key_lt(a, c),
    decreases a.len(),
{
    if a.len() > 0 && b.len() > 0 && c.len() > 0 && a[0] == b[0] && b[0] == c[0] {
        lemma_key_lt_trans(a.drop_first(), b.drop_first(), c.drop_first());
    }
}

pub proof fn lemma_key_lt_total(a: Seq<u8>, b: Seq<u8>)
    requires
        a != b,
    ensures
        key_lt(a, b) || key_lt(b, a),
    decreases a.len(),
{
    if a.len() > 0 && b.len() > 0 && a[0] == b[0] {
        if a.drop_first() == b.drop_first() {
            assert(a =~= seq![a[0]] + a.drop_first());
            assert(b =~= seq![b[0]] + b.drop_first());
        }
        lemma_key_lt_total(a.drop_first(), b.drop_first());
    } else if a.len() == 0 && b.len() == 0 {
        assert(a =~= b);
    }
}

/// A common prefix does not change the order.
pub proof fn lemma_key_lt_common_prefix(p: Seq<u8>, x: Seq<u8>, y: Seq<u8>)
    ensures
        key_lt(p + x, p + y) == key_lt(x, y),
    decreases p.len(),
{
    if p.len() > 0 {
        assert((p + x).drop_first() =~= p.drop_first() + x);
        assert((p + y).drop_first() =~= p.drop_first() + y);
        lemma_key_lt_common_prefix(p.drop_first(), x, y);
    } else {
        assert(p + x =~= x);
        assert(p + y =~= y);
    }
}

/// Compares two keys byte-wise.
pub fn bytes_lt(a: &[u8], b: &[u8]) -> (r: bool)
    ensures
        r == key_lt(a@, b@),
{
    let mut i: usize = 0;
    assert(a@.subrange(0, a@.len() as int) =~= a@);
    assert(b@.subrange(0, b@.len() as int) =~= b@);
    while i < a.len() && i < b.len()
        invariant
            0 <= i <= a@.len(),
            i <= b@.len(),
            key_lt(a@, b@) == key_lt(a@.subrange(i as int, a@.len() as int), b@.subrange(i as int, b@.len() as int)),
        decreases a@.len() - i,
    {
        let ghost sa = a@.subrange(i as int, a@.len() as int);
        let ghost sb = b@.subrange(i as int, b@.len() as int);
        if a[i] != b[i] {
            return a[i] < b[i];
        }
        assert(sa.drop_first() =~= a@.subrange(i + 1, a@.len() as int));
        assert(sb.drop_first() =~= b@.subrange(i + 1, b@.len() as int));
        i = i + 1;
    }
    i < b.len()
}
} // verus!
