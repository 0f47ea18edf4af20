use vstd::prelude::*;

use crate::channel::{ChannelActorState, ChannelUpdate};
use crate::errors::ChannelError;
use crate::keys::copy_range;
use crate::payment::{PaymentSession, PaymentSessionStatus};
use crate::keys::{prefixed, PEER_ID_CHANNEL_ID_PREFIX};
use crate::store::{
    phase_key, stored_channel_state, stored_payment_session, stored_phase, Store, StoredValue,
};
use crate::types::{ChannelState, Hash256, PeerId};

verus! {

/// A request to change a channel's forwarding policy.
#[derive(Clone, Debug, PartialEq, Eq)]
pub struct UpdateChannelParams {
    pub channel_id: Hash256,
    pub enabled: Option<bool>,
    pub tlc_locktime_expiry_delta: Option<u64>,
    pub tlc_minimum_value: Option<u128>,
    pub tlc_maximum_value: Option<u128>,
    pub tlc_fee_proportional_millionths: Option<u128>,
}

/// A request for the state of a payment.
#[derive(Clone, Debug, PartialEq, Eq)]
pub struct GetPaymentCommandParams {
    pub payment_hash: Hash256,
}

/// The state of a payment as reported to a client.
#[derive(Clone, Debug, PartialEq, Eq)]
pub struct GetPaymentCommandResult {
    pub payment_hash: Hash256,
    pub status: PaymentSessionStatus,
    pub created_at: u128,
    pub last_updated_at: u128,
    pub failed_error: Option<String>,
}

impl GetPaymentCommandResult {
    /// Reports on a payment session.
    pub fn from_session(session: &PaymentSession) -> (r: GetPaymentCommandResult)
        ensures
            r.payment_hash == session.payment_hash,
            r.status == session.status,
            r.created_at == session.created_at,
            r.last_updated_at == session.last_updated_at,
            r.failed_error == session.failed_error,
    {
        let failed_error = match &session.failed_error {
            Some(e) => Some(e.clone()),
            None => None,
        };
        GetPaymentCommandResult {
            payment_hash: session.payment_hash,
            status: session.status,
            created_at: session.created_at,
            last_updated_at: session.last_updated_at,
            failed_error,
        }
    }
}

/// The latest known state of the payment with the requested hash.
pub fn get_payment(store: &Store, params: &GetPaymentCommandParams) -> (r: Option<
    GetPaymentCommandResult,
>)
    requires
        store.wf(),
    ensures
        r is Some == stored_payment_session(store@, params.payment_hash@) is Some,
        r is Some ==> {
            let s = stored_payment_session(store@, params.payment_hash@)->Some_0;
            let g = r->Some_0;
            &&& g.payment_hash == s.payment_hash
            &&& g.status == s.status
            &&& g.created_at == s.created_at
            &&& g.last_updated_at == s.last_updated_at
            &&& g.failed_error == s.failed_error
        },
{
    match store.get_payment_session(&params.payment_hash) {
        Some(s) => Some(GetPaymentCommandResult::from_session(s)),
        None => None,
    }
}

/// Applies a policy update to the channel it names and returns the
/// announcement of the new policy.
pub fn update_channel(state: &mut ChannelActorState, params: &UpdateChannelParams) -> (r: Result<
    ChannelUpdate,
    ChannelError,
>)
    requires
        old(state).wf(),
    ensures
        final(state).wf(),
        params.channel_id@ != old(state).id@ ==> r == Err::<ChannelUpdate, ChannelError>(
            ChannelError::UnknownChannel,
        ) && *final(state) == *old(state),
        params.channel_id@ == old(state).id@ ==> r is Ok == (old(state).state
            != ChannelState::Closed && old(state).last_update_timestamp < u64::MAX && {
            let cfg = crate::channel::updated_config(
                old(state).config,
                params.enabled,
                params.tlc_locktime_expiry_delta,
                params.tlc_minimum_value,
                params.tlc_maximum_value,
                params.tlc_fee_proportional_millionths,
            );
            cfg.consistent() && crate::channel::amounts_within(
                old(state).offered_tlcs@,
                cfg.tlc_min_value,
                cfg.tlc_max_value,
            ) && crate::channel::amounts_within(
                old(state).received_tlcs@,
                cfg.tlc_min_value,
                cfg.tlc_max_value,
            )
        }),
        r is Ok ==> final(state).config == crate::channel::updated_config(
            old(state).config,
            params.enabled,
            params.tlc_locktime_expiry_delta,
            params.tlc_minimum_value,
            params.tlc_maximum_value,
            params.tlc_fee_proportional_millionths,
        ) && final(state).same_except_config(old(state)) && r->Ok_0.timestamp
            == old(state).last_update_timestamp + 1 && r->Ok_0.channel_id == old(state).id
            && final(state).last_update_timestamp == r->Ok_0.timestamp,
        r is Err ==> *final(state) == *old(state),
{
    if !params.channel_id.equals(&state.id) {
        return Err(ChannelError::UnknownChannel);
    }
    state.update(
        params.enabled,
        params.tlc_locktime_expiry_delta,
        params.tlc_minimum_value,
        params.tlc_maximum_value,
        params.tlc_fee_proportional_millionths,
    )
}

/// One channel as listed to a client.
#[derive(Clone, Debug, PartialEq, Eq)]
pub struct Channel {
    pub channel_id: Hash256,
    pub peer_id: PeerId,
    pub funding_udt_type_script: Option<Vec<u8>>,
    pub state: ChannelState,
    pub local_balance: u128,
    pub offered_tlc_balance: u128,
    pub remote_balance: u128,
    pub received_tlc_balance: u128,
    pub created_at: u64,
}

/// `c` reports channel state `s`.
pub open spec fn summarises(c: Channel, s: ChannelActorState) -> bool {
    &&& c.state == s.state
    &&& c.local_balance == s.local_balance
    &&& c.remote_balance == s.remote_balance
    &&& c.offered_tlc_balance == s.offered_tlc_balance
    &&& c.received_tlc_balance == s.received_tlc_balance
    &&& c.created_at == s.created_at_microseconds
    &&& (c.funding_udt_type_script is Some <==> s.funding_udt_type_script is Some)
    &&& c.funding_udt_type_script is Some ==> c.funding_udt_type_script->Some_0@
        == s.funding_udt_type_script->Some_0@
}

/// Newest first.
pub open spec fn newest_first(cs: Seq<Channel>) -> bool {
    forall|i: int, j: int| 0 <= i < j < cs.len() ==> cs[i].created_at >= cs[j].created_at
}

/// The phase key a listed channel was read from.
pub open spec fn listed_key(c: Channel) -> Seq<u8> {
    prefixed(PEER_ID_CHANNEL_ID_PREFIX, c.peer_id@ + c.channel_id@)
}

/// What a listed channel reports: its stored full state is at rest and not
/// closed, the listing matches it, and its balances and TLCs in flight add up
/// to the channel's capacity.
pub open spec fn listed_ok(store: Map<Seq<u8>, StoredValue>, c: Channel, peer_id: Option<PeerId>) -> bool {
    let s = stored_channel_state(store, c.channel_id@);
    &&& s is Some
    &&& s->Some_0.wf()
    &&& summarises(c, s->Some_0)
    &&& s->Some_0.state != ChannelState::Closed
    &&& c.local_balance + c.remote_balance + c.offered_tlc_balance + c.received_tlc_balance
        == s->Some_0.capacity
    &&& stored_phase(store, c.peer_id@, c.channel_id@) is Some
    &&& (peer_id is Some ==> c.peer_id@ == peer_id->Some_0@)
}

/// Inserts `c` before the first channel older than it. Returns where.
fn insert_newest_first(r: &mut Vec<Channel>, c: Channel) -> (pos: usize)
    requires
        newest_first(old(r)@),
    ensures
        newest_first(final(r)@),
        pos <= old(r)@.len(),
        final(r)@ == old(r)@.insert(pos as int, c),
{
    let mut pos: usize = 0;
    while pos < r.len() && r[pos].created_at >= c.created_at
        invariant
            0 <= pos <= r@.len(),
            forall|k: int| 0 <= k < pos ==> (#[trigger] r@[k]).created_at >= c.created_at,
        decreases r@.len() - pos,
    {
        pos = pos + 1;
    }
    let ghost before = r@;
    let ghost cc = c;
    r.insert(pos, c);
    proof {
        assert forall|k: int| 0 <= k < r@.len() implies #[trigger] r@[k] == (if k < pos {
            before[k]
        } else if k == pos {
            cc
        } else {
            before[k - 1]
        }) by {}
        assert forall|a: int, b: int| 0 <= a < b < r@.len() implies r@[a].created_at
            >= r@[b].created_at by {
            if a == pos && b > pos {
                assert(before[pos as int].created_at < cc.created_at);
                assert(before[pos as int].created_at >= before[b - 1].created_at || b - 1 == pos);
            }
        }
    }
    pos
}

/// The channels that are not closed, all of them or those with `peer_id`,
/// newest first. Each is listed once, under the peer and id of its phase
/// entry, with the balances of its full state.
#[verifier::rlimit(50)]
pub fn list_channels(store: &Store, peer_id: Option<PeerId>) -> (r: Vec<Channel>)
    requires
        store.wf(),
    ensures
        newest_first(r@),
        forall|i: int| 0 <= i < r@.len() ==> listed_ok(store@, #[trigger] r@[i], peer_id),
        forall|p: Seq<u8>, id: Seq<u8>|
            id.len() == 32 && #[trigger] stored_phase(store@, p, id) is Some && (peer_id is Some ==> p
                == peer_id->Some_0@) && stored_channel_state(store@, id) is Some
                && stored_channel_state(store@, id)->Some_0.state != ChannelState::Closed
                ==> exists|i: int|
                0 <= i < r@.len() && (#[trigger] r@[i]).peer_id@ == p && r@[i].channel_id@ == id,
        forall|a: int, b: int|
            0 <= a < b < r@.len() ==> listed_key(#[trigger] r@[a]) != listed_key(#[trigger] r@[b]),
{
    let ghost want = peer_id;
    let states = store.get_channel_states(peer_id);
    let mut r: Vec<Channel> = Vec::new();
    let mut i: usize = 0;
    while i < states.len()
        invariant
            0 <= i <= states@.len(),
            store.wf(),
            want == peer_id,
            forall|t: int|
                0 <= t < states@.len() ==> stored_phase(store@, (#[trigger] states@[t]).0@, states@[t].1@)
                    is Some && (peer_id is Some ==> states@[t].0@ == peer_id->Some_0@),
            forall|t1: int, t2: int|
                0 <= t1 < t2 < states@.len() ==> phase_key(#[trigger] states@[t1]) != phase_key(
                    #[trigger] states@[t2],
                ),
            newest_first(r@),
            forall|k: int| 0 <= k < r@.len() ==> listed_ok(store@, #[trigger] r@[k], peer_id),
            forall|k: int|
                0 <= k < r@.len() ==> exists|t: int|
                    0 <= t < i && phase_key(states@[t]) == listed_key(#[trigger] r@[k]),
            forall|a: int, b: int|
                0 <= a < b < r@.len() ==> listed_key(#[trigger] r@[a]) != listed_key(#[trigger] r@[b]),
            forall|t: int|
                0 <= t < i && stored_channel_state(store@, (#[trigger] states@[t]).1@) is Some
                    && stored_channel_state(store@, states@[t].1@)->Some_0.state
                    != ChannelState::Closed ==> exists|k: int|
                    0 <= k < r@.len() && (#[trigger] r@[k]).peer_id@ == states@[t].0@
                        && r@[k].channel_id@ == states@[t].1@,
        decreases states@.len() - i,
    {
        let id = states[i].1;
        if let Some(s) = store.get_channel_actor_state(&id) {
            if s.state != ChannelState::Closed {
                let script = match &s.funding_udt_type_script {
                    Some(v) => Some(copy_range(v.as_slice(), 0, v.len())),
                    None => None,
                };
                proof {
                    if s.funding_udt_type_script is Some {
                        let v = s.funding_udt_type_script->Some_0;
                        assert(v@.subrange(0, v@.len() as int) =~= v@);
                    }
                }
                let c = Channel {
                    channel_id: id,
                    peer_id: PeerId {
                        bytes: copy_range(
                            states[i].0.bytes.as_slice(),
                            0,
                            states[i].0.bytes.len(),
                        ),
                    },
                    funding_udt_type_script: script,
                    state: s.state,
                    local_balance: s.local_balance,
                    offered_tlc_balance: s.offered_tlc_balance,
                    remote_balance: s.remote_balance,
                    received_tlc_balance: s.received_tlc_balance,
                    created_at: s.created_at_microseconds,
                };
                proof {
                    assert(states@[i as int].0.bytes@.subrange(0, states@[i as int].0.bytes@.len() as int)
                        =~= states@[i as int].0@);
                    assert(stored_channel_state(store@, id@) == Some(*s));
                    assert(listed_key(c) == phase_key(states@[i as int]));
                    assert(listed_ok(store@, c, peer_id));
                    assert forall|k: int| 0 <= k < r@.len() implies listed_key(#[trigger] r@[k])
                        != listed_key(c) by {
                        let t = choose|t: int| 0 <= t < i && phase_key(states@[t]) == listed_key(r@[k]);
                        assert(phase_key(states@[t]) != phase_key(states@[i as int]));
                    }
                }
                let ghost before = r@;
                let ghost cc = c;
                let pos = insert_newest_first(&mut r, c);
                proof {
                    assert forall|k: int| 0 <= k < r@.len() implies #[trigger] r@[k] == (if k < pos {
                        before[k]
                    } else if k == pos {
                        cc
                    } else {
                        before[k - 1]
                    }) by {}
                    assert forall|k: int| 0 <= k < r@.len() implies listed_ok(store@, #[trigger] r@[k], peer_id) by {}
                    assert forall|k: int| 0 <= k < r@.len() implies exists|t: int|
                        0 <= t < i + 1 && phase_key(states@[t]) == listed_key(#[trigger] r@[k]) by {
                        if k < pos {
                            let t = choose|t: int| 0 <= t < i && phase_key(states@[t]) == listed_key(before[k]);
                        } else if k > pos {
                            let t = choose|t: int| 0 <= t < i && phase_key(states@[t]) == listed_key(before[k - 1]);
                        } else {
                            assert(phase_key(states@[i as int]) == listed_key(r@[k]));
                        }
                    }
                    assert forall|a: int, b: int|
                        0 <= a < b < r@.len() implies listed_key(#[trigger] r@[a]) != listed_key(#[trigger] r@[b]) by {
                        if a < pos && b > pos {
                            assert(listed_key(before[a]) != listed_key(before[b - 1]));
                        } else if b < pos {
                            assert(listed_key(before[a]) != listed_key(before[b]));
                        } else if a > pos {
                            assert(listed_key(before[a - 1]) != listed_key(before[b - 1]));
                        }
                    }
                    assert forall|t: int|
                        0 <= t < i + 1 && stored_channel_state(store@, (#[trigger] states@[t]).1@) is Some
                            && stored_channel_state(store@, states@[t].1@)->Some_0.state
                            != ChannelState::Closed implies exists|k: int|
                            0 <= k < r@.len() && (#[trigger] r@[k]).peer_id@ == states@[t].0@
                                && r@[k].channel_id@ == states@[t].1@ by {
                        if t < i {
                            let k0 = choose|k: int|
                                0 <= k < before.len() && (#[trigger] before[k]).peer_id@ == states@[t].0@
                                    && before[k].channel_id@ == states@[t].1@;
                            if k0 < pos {
                                assert(r@[k0] == before[k0]);
                            } else {
                                assert(r@[k0 + 1] == before[k0]);
                            }
                        } else {
                            assert(r@[pos as int] == cc);
                        }
                    }
                }
            }
        }
        i = i + 1;
    }
    proof {
        assert forall|p: Seq<u8>, id: Seq<u8>|
            id.len() == 32 && #[trigger] stored_phase(store@, p, id) is Some && (peer_id is Some ==> p
                == peer_id->Some_0@) && stored_channel_state(store@, id) is Some
                && stored_channel_state(store@, id)->Some_0.state != ChannelState::Closed
                implies exists|k: int|
                0 <= k < r@.len() && (#[trigger] r@[k]).peer_id@ == p && r@[k].channel_id@ == id by {
            let t = choose|t: int|
                0 <= t < states@.len() && (#[trigger] states@[t]).0@ == p && states@[t].1@ == id;
        }
    }
    r
}

} // verus!
