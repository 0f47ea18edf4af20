use vstd::prelude::*;

use crate::errors::ChannelError;
use crate::hashing::{blake2b_256_of, hash_with, hash_with_algorithm};
use crate::types::{ChannelState, HashAlgorithm, Hash256, PeerId};

verus! {

/// The lowest commitment fee rate (shannons per kilo-byte) a channel accepts.
pub const MIN_COMMITMENT_FEE_RATE: u64 = 1000;

/// The upstream TLC that a forwarded TLC settles back to.
#[derive(Clone, Copy, Debug, PartialEq, Eq)]
pub struct PreviousTlc {
    pub channel_id: Hash256,
    pub tlc_id: u64,
}

/// A pending hashed-timelock contract.
#[derive(Clone, Debug, PartialEq, Eq)]
pub struct Tlc {
    pub id: u64,
    pub amount: u128,
    pub payment_hash: Hash256,
    pub expiry: u64,
    pub hash_algorithm: HashAlgorithm,
    pub onion_packet: Vec<u8>,
    pub previous_tlc: Option<PreviousTlc>,
}

/// How a pending TLC is removed.
#[derive(Clone, Copy, Debug, PartialEq, Eq)]
pub enum RemoveTlcReason {
    /// Settled by revealing the preimage of the payment hash.
    Fulfill { payment_preimage: Hash256 },
    /// Failed with an error code.
    Fail { error_code: u32 },
}

/// Opening choices carried with a channel: whether it is announced, where
/// its funds go at close, the delay (an epoch number with fraction) before a
/// commitment's outputs can be spent, and the fee rate of the funding
/// transaction.
#[derive(Clone, Debug, PartialEq, Eq)]
pub struct OpenChannelOptions {
    pub public: bool,
    pub shutdown_script: Option<Vec<u8>>,
    pub commitment_delay_epoch: Option<u64>,
    pub funding_fee_rate: Option<u64>,
}

impl OpenChannelOptions {
    /// A private channel with every other choice left to defaults.
    pub fn none() -> (r: OpenChannelOptions)
        ensures
            !r.public,
            r.shutdown_script is None,
            r.commitment_delay_epoch is None,
            r.funding_fee_rate is None,
    {
        OpenChannelOptions {
            public: false,
            shutdown_script: None,
            commitment_delay_epoch: None,
            funding_fee_rate: None,
        }
    }
}

/// Forwarding policy and bounds of one channel.
#[derive(Clone, Copy, Debug, PartialEq, Eq, Structural)]
pub struct ChannelConfig {
    pub enabled: bool,
    pub tlc_locktime_expiry_delta: u64,
    pub tlc_min_value: u128,
    pub tlc_max_value: u128,
    pub tlc_fee_proportional_millionths: u128,
    pub max_tlc_value_in_flight: u128,
    pub max_tlc_number_in_flight: u64,
}

impl ChannelConfig {
    /// The bounds are consistent with each other.
    pub open spec fn consistent(self) -> bool {
        &&& self.tlc_min_value <= self.tlc_max_value
        &&& self.tlc_max_value <= self.max_tlc_value_in_flight
    }

    /// Checks that the bounds are consistent with each other.
    pub fn is_consistent(&self) -> (r: bool)
        ensures
            r == self.consistent(),
    {
        self.tlc_min_value <= self.tlc_max_value && self.tlc_max_value
            <= self.max_tlc_value_in_flight
    }
}

/// A channel may move from phase `from` to phase `to`: it stays, takes the
/// next step of the lifecycle, or is forced closed from any open phase.
pub open spec fn allowed_transition(from: ChannelState, to: ChannelState) -> bool {
    ||| from == to
    ||| (from == ChannelState::NegotiatingFunding && to == ChannelState::AwaitingChannelReady)
    ||| (from == ChannelState::AwaitingChannelReady && to == ChannelState::ChannelReady)
    ||| (from == ChannelState::ChannelReady && to == ChannelState::ShuttingDown)
    ||| (from != ChannelState::Closed && to == ChannelState::Closed)
}

/// The sum of the amounts of a sequence of TLCs.
pub open spec fn sum_amounts(tlcs: Seq<Tlc>) -> int
    decreases tlcs.len(),
{
    if tlcs.len() == 0 {
        0
    } else {
        sum_amounts(tlcs.drop_last()) + tlcs.last().amount
    }
}

/// How many TLCs of a sequence carry the id `id`.
pub open spec fn count_id(tlcs: Seq<Tlc>, id: u64) -> nat
    decreases tlcs.len(),
{
    if tlcs.len() == 0 {
        0
    } else {
        count_id(tlcs.drop_last(), id) + if tlcs.last().id == id {
            1nat
        } else {
            0nat
        }
    }
}

/// Every TLC amount lies within `[min, max]`.
pub open spec fn amounts_within(tlcs: Seq<Tlc>, min: u128, max: u128) -> bool {
    forall|i: int| 0 <= i < tlcs.len() ==> min <= #[trigger] tlcs[i].amount <= max
}

/// The ids of a sequence of TLCs strictly increase and stay below `next`.
pub open spec fn ids_ordered_below(tlcs: Seq<Tlc>, next: u64) -> bool {
    &&& forall|i: int, j: int|
        0 <= i < j < tlcs.len() ==> #[trigger] tlcs[i].id < #[trigger] tlcs[j].id
    &&& forall|i: int| 0 <= i < tlcs.len() ==> #[trigger] tlcs[i].id < next
}

/// The position of the TLC with id `id`, if any.
pub open spec fn index_of_id(tlcs: Seq<Tlc>, id: u64) -> int {
    choose|i: int| 0 <= i < tlcs.len() && tlcs[i].id == id
}

pub open spec fn has_id(tlcs: Seq<Tlc>, id: u64) -> bool {
    exists|i: int| 0 <= i < tlcs.len() && tlcs[i].id == id
}

proof fn lemma_sum_push(s: Seq<Tlc>, t: Tlc)
    ensures
        sum_amounts(s.push(t)) == sum_amounts(s) + t.amount,
{
    assert(s.push(t).drop_last() =~= s);
}

proof fn lemma_sum_nonneg(s: Seq<Tlc>)
    ensures
        sum_amounts(s) >= 0,
    decreases s.len(),
{
    if s.len() > 0 {
        lemma_sum_nonneg(s.drop_last());
    }
}

proof fn lemma_sum_remove(s: Seq<Tlc>, i: int)
    requires
        0 <= i < s.len(),
    ensures
        sum_amounts(s.remove(i)) == sum_amounts(s) - s[i].amount,
    decreases s.len(),
{
    if i == s.len() - 1 {
        assert(s.remove(i) =~= s.drop_last());
    } else {
        lemma_sum_remove(s.drop_last(), i);
        assert(s.remove(i).drop_last() =~= s.drop_last().remove(i));
        assert(s.remove(i).last() == s.last());
    }
}

proof fn lemma_count_unique(s: Seq<Tlc>, next: u64, k: int)
    requires
        ids_ordered_below(s, next),
        0 <= k < s.len(),
    ensures
        count_id(s, s[k].id) == 1,
    decreases s.len(),
{
    let id = s[k].id;
    if k == s.len() - 1 {
        lemma_count_absent(s.drop_last(), id);
    } else {
        assert(ids_ordered_below(s.drop_last(), next));
        lemma_count_unique(s.drop_last(), next, k);
        assert(s.last().id != id);
    }
}

proof fn lemma_count_absent(s: Seq<Tlc>, id: u64)
    requires
        forall|i: int| 0 <= i < s.len() ==> #[trigger] s[i].id < id,
    ensures
        count_id(s, id) == 0,
    decreases s.len(),
{
    if s.len() > 0 {
        lemma_count_absent(s.drop_last(), id);
    }
}

/// The state of one channel, owned by the actor that serves it.
#[derive(Debug, PartialEq, Eq)]
pub struct ChannelActorState {
    pub id: Hash256,
    pub state: ChannelState,
    pub remote_peer_id: PeerId,
    pub local_balance: u128,
    pub remote_balance: u128,
    /// Total funding of the channel: both balances plus everything in flight.
    pub capacity: u128,
    pub offered_tlcs: Vec<Tlc>,
    pub received_tlcs: Vec<Tlc>,
    /// Sum of the amounts of `offered_tlcs`.
    pub offered_tlc_balance: u128,
    /// Sum of the amounts of `received_tlcs`.
    pub received_tlc_balance: u128,
    pub next_offered_tlc_id: u64,
    pub next_received_tlc_id: u64,
    pub commitment_number_local: u64,
    pub commitment_number_remote: u64,
    pub config: ChannelConfig,
    pub funding_udt_type_script: Option<Vec<u8>>,
    pub created_at_microseconds: u64,
    pub open_options: OpenChannelOptions,
    /// Where this side's funds go at a cooperative close, once asked for.
    pub close_script: Option<Vec<u8>>,
    /// Fee rate of the closing transaction, once a close was asked for.
    pub close_fee_rate: Option<u64>,
    /// Timestamp of the latest channel-update announcement.
    pub last_update_timestamp: u64,
}

impl ChannelActorState {
    /// The invariants that hold of a channel at rest.
    pub open spec fn wf(&self) -> bool {
        &&& self.offered_tlc_balance == sum_amounts(self.offered_tlcs@)
        &&& self.received_tlc_balance == sum_amounts(self.received_tlcs@)
        &&& self.local_balance + self.remote_balance + self.offered_tlc_balance
            + self.received_tlc_balance == self.capacity
        &&& self.offered_tlcs@.len() + self.received_tlcs@.len()
            <= self.config.max_tlc_number_in_flight
        &&& self.offered_tlc_balance + self.received_tlc_balance
            <= self.config.max_tlc_value_in_flight
        &&& amounts_within(self.offered_tlcs@, self.config.tlc_min_value, self.config.tlc_max_value)
        &&& amounts_within(
            self.received_tlcs@,
            self.config.tlc_min_value,
            self.config.tlc_max_value,
        )
        &&& ids_ordered_below(self.offered_tlcs@, self.next_offered_tlc_id)
        &&& ids_ordered_below(self.received_tlcs@, self.next_received_tlc_id)
        &&& self.config.consistent()
    }

    /// Everything but the TLC sets and balances is as in `other`.
    pub open spec fn same_setup(&self, other: &ChannelActorState) -> bool {
        &&& self.id == other.id
        &&& self.remote_peer_id == other.remote_peer_id
        &&& self.capacity == other.capacity
        &&& self.config == other.config
        &&& self.funding_udt_type_script == other.funding_udt_type_script
        &&& self.created_at_microseconds == other.created_at_microseconds
        &&& self.open_options == other.open_options
    }

    /// Only the TLC sets and the balances may differ from `other`.
    pub open spec fn same_except_tlcs(&self, other: &ChannelActorState) -> bool {
        &&& self.same_setup(other)
        &&& self.state == other.state
        &&& self.commitment_number_local == other.commitment_number_local
        &&& self.commitment_number_remote == other.commitment_number_remote
        &&& self.next_received_tlc_id == other.next_received_tlc_id
    }

    /// The error `add_tlc` reports for these arguments, if any.
    pub open spec fn add_tlc_error(&self, amount: u128, expiry: u64, now: u64) -> Option<
        ChannelError,
    > {
        if self.state != ChannelState::ChannelReady {
            Some(ChannelError::IllegalState)
        } else if amount < self.config.tlc_min_value || amount > self.config.tlc_max_value {
            Some(ChannelError::TlcValueOutOfRange)
        } else if self.offered_tlcs@.len() + self.received_tlcs@.len() + 1
            > self.config.max_tlc_number_in_flight || self.offered_tlc_balance
            + self.received_tlc_balance + amount > self.config.max_tlc_value_in_flight
            || self.next_offered_tlc_id == u64::MAX {
            Some(ChannelError::TooManyInflightTlcs)
        } else if amount > self.local_balance {
            Some(ChannelError::InsufficientBalance)
        } else if expiry < now + self.config.tlc_locktime_expiry_delta {
            Some(ChannelError::ExpiryTooSoon)
        } else {
            None
        }
    }

    /// The error `receive_tlc` reports for these arguments, if any.
    pub open spec fn receive_tlc_error(&self, id: u64, amount: u128, expiry: u64, now: u64) -> Option<
        ChannelError,
    > {
        if self.state != ChannelState::ChannelReady {
            Some(ChannelError::IllegalState)
        } else if id != self.next_received_tlc_id {
            Some(ChannelError::InvalidParameter)
        } else if amount < self.config.tlc_min_value || amount > self.config.tlc_max_value {
            Some(ChannelError::TlcValueOutOfRange)
        } else if self.received_tlcs@.len() + self.offered_tlcs@.len() + 1
            > self.config.max_tlc_number_in_flight || self.received_tlc_balance
            + self.offered_tlc_balance + amount > self.config.max_tlc_value_in_flight
            || self.next_received_tlc_id == u64::MAX {
            Some(ChannelError::TooManyInflightTlcs)
        } else if amount > self.remote_balance {
            Some(ChannelError::InsufficientBalance)
        } else if expiry < now + self.config.tlc_locktime_expiry_delta {
            Some(ChannelError::ExpiryTooSoon)
        } else {
            None
        }
    }

    /// The error a removal of offered TLC `id` reports, if any, where `digest`
    /// is the digest of the revealed preimage under that TLC's algorithm.
    pub open spec fn remove_tlc_error(&self, id: u64, reason: RemoveTlcReason, digest: Seq<u8>) -> Option<
        ChannelError,
    > {
        if self.state != ChannelState::ChannelReady && self.state != ChannelState::ShuttingDown {
            Some(ChannelError::IllegalState)
        } else if !has_id(self.offered_tlcs@, id) {
            Some(ChannelError::UnknownTlc)
        } else if reason is Fulfill && digest != self.offered_tlcs@[index_of_id(
            self.offered_tlcs@,
            id,
        )].payment_hash@ {
            Some(ChannelError::InvalidParameter)
        } else {
            None
        }
    }

    /// `new` is `old` after offered TLC `id` left it for `reason`, and `t` is
    /// that TLC.
    pub open spec fn tlc_removed(
        old: &ChannelActorState,
        new: &ChannelActorState,
        id: u64,
        reason: RemoveTlcReason,
        t: Tlc,
    ) -> bool {
        let k = index_of_id(old.offered_tlcs@, id);
        &&& t == old.offered_tlcs@[k]
        &&& new.offered_tlcs@ == old.offered_tlcs@.remove(k)
        &&& new.received_tlcs@ == old.received_tlcs@
        &&& new.next_offered_tlc_id == old.next_offered_tlc_id
        &&& new.same_except_tlcs(old)
        &&& match reason {
            RemoveTlcReason::Fulfill { .. } => {
                &&& new.remote_balance == old.remote_balance + t.amount
                &&& new.local_balance == old.local_balance
            },
            RemoveTlcReason::Fail { .. } => {
                &&& new.local_balance == old.local_balance + t.amount
                &&& new.remote_balance == old.remote_balance
            },
        }
    }

    /// The error a removal of received TLC `id` reports, if any, where `digest`
    /// is the digest of the revealed preimage under that TLC's algorithm.
    pub open spec fn settle_received_tlc_error(&self, id: u64, reason: RemoveTlcReason, digest: Seq<u8>) -> Option<
        ChannelError,
    > {
        if self.state != ChannelState::ChannelReady && self.state != ChannelState::ShuttingDown {
            Some(ChannelError::IllegalState)
        } else if !has_id(self.received_tlcs@, id) {
            Some(ChannelError::UnknownTlc)
        } else if reason is Fulfill && digest != self.received_tlcs@[index_of_id(
            self.received_tlcs@,
            id,
        )].payment_hash@ {
            Some(ChannelError::InvalidParameter)
        } else {
            None
        }
    }

    /// `new` is `old` after received TLC `id` left it for `reason`, and `t` is
    /// that TLC.
    pub open spec fn received_tlc_settled(
        old: &ChannelActorState,
        new: &ChannelActorState,
        id: u64,
        reason: RemoveTlcReason,
        t: Tlc,
    ) -> bool {
        let k = index_of_id(old.received_tlcs@, id);
        &&& t == old.received_tlcs@[k]
        &&& new.received_tlcs@ == old.received_tlcs@.remove(k)
        &&& new.offered_tlcs@ == old.offered_tlcs@
        &&& new.next_offered_tlc_id == old.next_offered_tlc_id
        &&& new.same_except_tlcs(old)
        &&& match reason {
            RemoveTlcReason::Fulfill { .. } => {
                &&& new.local_balance == old.local_balance + t.amount
                &&& new.remote_balance == old.remote_balance
            },
            RemoveTlcReason::Fail { .. } => {
                &&& new.remote_balance == old.remote_balance + t.amount
                &&& new.local_balance == old.local_balance
            },
        }
    }

    /// Opens a channel towards `peer`, funded by `funding_amount` from this
    /// side, in phase `NegotiatingFunding` under the temporary id `temp_id`.
    pub fn new_outbound(
        options: OpenChannelOptions,
        temp_id: Hash256,
        peer: PeerId,
        funding_amount: u128,
        config: ChannelConfig,
        commitment_fee_rate: u64,
        funding_udt_type_script: Option<Vec<u8>>,
        created_at: u64,
    ) -> (r: Result<ChannelActorState, ChannelError>)
        ensures
            r is Err <==> (funding_amount == 0 || !config.consistent() || commitment_fee_rate
                < MIN_COMMITMENT_FEE_RATE),
            r is Err ==> r->Err_0 == ChannelError::InvalidParameter,
            r is Ok ==> {
                let s = r->Ok_0;
                &&& s.wf()
                &&& s.id == temp_id
                &&& s.state == ChannelState::NegotiatingFunding
                &&& s.remote_peer_id == peer
                &&& s.local_balance == funding_amount
                &&& s.remote_balance == 0
                &&& s.capacity == funding_amount
                &&& s.offered_tlcs@.len() == 0
                &&& s.received_tlcs@.len() == 0
                &&& s.commitment_number_local == 0
                &&& s.commitment_number_remote == 0
                &&& s.next_offered_tlc_id == 0
                &&& s.next_received_tlc_id == 0
                &&& s.config == config
                &&& s.funding_udt_type_script == funding_udt_type_script
                &&& s.created_at_microseconds == created_at
                &&& s.open_options == options
            },
    {
        if funding_amount == 0 || !config.is_consistent() || commitment_fee_rate
            < MIN_COMMITMENT_FEE_RATE {
            return Err(ChannelError::InvalidParameter);
        }
        let s = ChannelActorState {
            id: temp_id,
            state: ChannelState::NegotiatingFunding,
            remote_peer_id: peer,
            local_balance: funding_amount,
            remote_balance: 0,
            capacity: funding_amount,
            offered_tlcs: Vec::new(),
            received_tlcs: Vec::new(),
            offered_tlc_balance: 0,
            received_tlc_balance: 0,
            next_offered_tlc_id: 0,
            next_received_tlc_id: 0,
            commitment_number_local: 0,
            commitment_number_remote: 0,
            config,
            funding_udt_type_script,
            created_at_microseconds: created_at,
            last_update_timestamp: 0,
            open_options: options,
            close_script: None,
            close_fee_rate: None,
        };
        Ok(s)
    }

    /// Accepts a channel that `peer` opened under `temp_id` with
    /// `remote_funding`, adding `local_funding` from this side. The channel
    /// takes its final id and waits in `AwaitingChannelReady`.
    pub fn new_inbound(
        options: OpenChannelOptions,
        temp_id: Hash256,
        peer: PeerId,
        local_funding: u128,
        remote_funding: u128,
        config: ChannelConfig,
        commitment_fee_rate: u64,
        funding_udt_type_script: Option<Vec<u8>>,
        created_at: u64,
    ) -> (r: Result<ChannelActorState, ChannelError>)
        ensures
            r is Err <==> (local_funding == 0 || !config.consistent() || commitment_fee_rate
                < MIN_COMMITMENT_FEE_RATE || local_funding + remote_funding > u128::MAX),
            r is Err ==> r->Err_0 == ChannelError::InvalidParameter,
            r is Ok ==> {
                let s = r->Ok_0;
                &&& s.wf()
                &&& s.id@ == blake2b_256_of(temp_id@)
                &&& s.state == ChannelState::AwaitingChannelReady
                &&& s.remote_peer_id == peer
                &&& s.local_balance == local_funding
                &&& s.remote_balance == remote_funding
                &&& s.capacity == local_funding + remote_funding
                &&& s.offered_tlcs@.len() == 0
                &&& s.received_tlcs@.len() == 0
                &&& s.commitment_number_local == 0
                &&& s.commitment_number_remote == 0
                &&& s.next_offered_tlc_id == 0
                &&& s.next_received_tlc_id == 0
                &&& s.config == config
                &&& s.funding_udt_type_script == funding_udt_type_script
                &&& s.created_at_microseconds == created_at
                &&& s.open_options == options
            },
    {
        if local_funding == 0 || !config.is_consistent() || commitment_fee_rate
            < MIN_COMMITMENT_FEE_RATE || remote_funding > u128::MAX - local_funding {
            return Err(ChannelError::InvalidParameter);
        }
        let s = ChannelActorState {
            id: derive_channel_id(&temp_id),
            state: ChannelState::AwaitingChannelReady,
            remote_peer_id: peer,
            local_balance: local_funding,
            remote_balance: remote_funding,
            capacity: local_funding + remote_funding,
            offered_tlcs: Vec::new(),
            received_tlcs: Vec::new(),
            offered_tlc_balance: 0,
            received_tlc_balance: 0,
            next_offered_tlc_id: 0,
            next_received_tlc_id: 0,
            commitment_number_local: 0,
            commitment_number_remote: 0,
            config,
            funding_udt_type_script,
            created_at_microseconds: created_at,
            last_update_timestamp: 0,
            open_options: options,
            close_script: None,
            close_fee_rate: None,
        };
        Ok(s)
    }

    /// The opener learns that the peer accepted with `remote_funding`: the
    /// channel takes its final id and waits in `AwaitingChannelReady`.
    pub fn on_accepted(&mut self, remote_funding: u128) -> (r: Result<(), ChannelError>)
        requires
            old(self).wf(),
        ensures
            allowed_transition(old(self).state, final(self).state),
            r is Err <==> (old(self).state != ChannelState::NegotiatingFunding || old(self).capacity
                + remote_funding > u128::MAX),
            r is Err ==> *final(self) == *old(self),
            r is Err ==> r->Err_0 == (if old(self).state != ChannelState::NegotiatingFunding {
                ChannelError::IllegalState
            } else {
                ChannelError::InvalidParameter
            }),
            final(self).wf(),
            r is Ok ==> {
                &&& final(self).id@ == blake2b_256_of(old(self).id@)
                &&& final(self).state == ChannelState::AwaitingChannelReady
                &&& final(self).remote_balance == old(self).remote_balance + remote_funding
                &&& final(self).capacity == old(self).capacity + remote_funding
                &&& final(self).local_balance == old(self).local_balance
                &&& final(self).offered_tlcs == old(self).offered_tlcs
                &&& final(self).received_tlcs == old(self).received_tlcs
                &&& final(self).config == old(self).config
                &&& final(self).remote_peer_id == old(self).remote_peer_id
                &&& final(self).next_offered_tlc_id == old(self).next_offered_tlc_id
                &&& final(self).next_received_tlc_id == old(self).next_received_tlc_id
                &&& final(self).commitment_number_local == old(self).commitment_number_local
                &&& final(self).commitment_number_remote == old(self).commitment_number_remote
                &&& final(self).created_at_microseconds == old(self).created_at_microseconds
            },
    {
        if self.state != ChannelState::NegotiatingFunding {
            return Err(ChannelError::IllegalState);
        }
        if remote_funding > u128::MAX - self.capacity {
            return Err(ChannelError::InvalidParameter);
        }
        self.id = derive_channel_id(&self.id);
        self.state = ChannelState::AwaitingChannelReady;
        self.remote_balance = self.remote_balance + remote_funding;
        self.capacity = self.capacity + remote_funding;
        Ok(())
    }

    /// The chain confirmed the funding and both sides exchanged
    /// `ChannelReady`: the channel starts operating.
    pub fn on_channel_ready(&mut self) -> (r: Result<(), ChannelError>)
        requires
            old(self).wf(),
        ensures
            allowed_transition(old(self).state, final(self).state),
            final(self).wf(),
            r is Err <==> old(self).state != ChannelState::AwaitingChannelReady,
            r is Err ==> r->Err_0 == ChannelError::IllegalState && *final(self) == *old(self),
            r is Ok ==> final(self).state == ChannelState::ChannelReady,
            r is Ok ==> final(self).same_setup(old(self)),
            r is Ok ==> final(self).local_balance == old(self).local_balance
                && final(self).remote_balance == old(self).remote_balance,
            r is Ok ==> final(self).offered_tlcs == old(self).offered_tlcs && final(self).received_tlcs
                == old(self).received_tlcs && final(self).next_offered_tlc_id
                == old(self).next_offered_tlc_id && final(self).next_received_tlc_id
                == old(self).next_received_tlc_id && final(self).commitment_number_local
                == old(self).commitment_number_local && final(self).commitment_number_remote
                == old(self).commitment_number_remote,
    {
        if self.state != ChannelState::AwaitingChannelReady {
            return Err(ChannelError::IllegalState);
        }
        self.state = ChannelState::ChannelReady;
        Ok(())
    }
}

impl ChannelActorState {
    /// Offers a TLC of `amount` to the peer, debiting the local balance.
    /// `now` is the current block height or time against which the expiry
    /// must leave the channel's locktime delta. Returns the TLC's id.
    pub fn add_tlc(
        &mut self,
        amount: u128,
        payment_hash: Hash256,
        expiry: u64,
        hash_algorithm: HashAlgorithm,
        onion_packet: Vec<u8>,
        previous_tlc: Option<PreviousTlc>,
        now: u64,
    ) -> (r: Result<u64, ChannelError>)
        requires
            old(self).wf(),
        ensures
            final(self).wf(),
            old(self).add_tlc_error(amount, expiry, now) is Some ==> r == Err::<u64, ChannelError>(
                old(self).add_tlc_error(amount, expiry, now)->Some_0,
            ) && *final(self) == *old(self),
            old(self).add_tlc_error(amount, expiry, now) is None ==> {
                &&& r == Ok::<u64, ChannelError>(old(self).next_offered_tlc_id)
                &&& final(self).offered_tlcs@ == old(self).offered_tlcs@.push(
                    (Tlc {
                        id: old(self).next_offered_tlc_id,
                        amount,
                        payment_hash,
                        expiry,
                        hash_algorithm,
                        onion_packet,
                        previous_tlc,
                    }),
                )
                &&& count_id(final(self).offered_tlcs@, old(self).next_offered_tlc_id) == 1
                &&& final(self).local_balance == old(self).local_balance - amount
                &&& final(self).remote_balance == old(self).remote_balance
                &&& final(self).received_tlcs@ == old(self).received_tlcs@
                &&& final(self).next_offered_tlc_id == old(self).next_offered_tlc_id + 1
                &&& final(self).same_except_tlcs(old(self))
            },
    {
        if self.state != ChannelState::ChannelReady {
            return Err(ChannelError::IllegalState);
        }
        if amount < self.config.tlc_min_value || amount > self.config.tlc_max_value {
            return Err(ChannelError::TlcValueOutOfRange);
        }
        if self.offered_tlcs.len() as u64 + self.received_tlcs.len() as u64
            >= self.config.max_tlc_number_in_flight || amount > self.config.max_tlc_value_in_flight
            - self.offered_tlc_balance - self.received_tlc_balance || self.next_offered_tlc_id
            == u64::MAX {
            return Err(ChannelError::TooManyInflightTlcs);
        }
        if amount > self.local_balance {
            return Err(ChannelError::InsufficientBalance);
        }
        if expiry < now || expiry - now < self.config.tlc_locktime_expiry_delta {
            return Err(ChannelError::ExpiryTooSoon);
        }
        let id = self.next_offered_tlc_id;
        let tlc = Tlc {
            id,
            amount,
            payment_hash,
            expiry,
            hash_algorithm,
            onion_packet,
            previous_tlc,
        };
        proof {
            lemma_sum_push(self.offered_tlcs@, tlc);
        }
        self.offered_tlcs.push(tlc);
        self.offered_tlc_balance = self.offered_tlc_balance + amount;
        self.local_balance = self.local_balance - amount;
        self.next_offered_tlc_id = id + 1;
        proof {
            let s = self.offered_tlcs@;
            assert(ids_ordered_below(s, self.next_offered_tlc_id));
            lemma_count_unique(s, self.next_offered_tlc_id, s.len() - 1);
        }
        Ok(id)
    }

    /// Takes in a TLC of `amount` that the peer offered under `id`, debiting
    /// the remote balance. The peer numbers its TLCs in order, so `id` must
    /// be the next one expected.
    pub fn receive_tlc(
        &mut self,
        id: u64,
        amount: u128,
        payment_hash: Hash256,
        expiry: u64,
        hash_algorithm: HashAlgorithm,
        onion_packet: Vec<u8>,
        previous_tlc: Option<PreviousTlc>,
        now: u64,
    ) -> (r: Result<(), ChannelError>)
        requires
            old(self).wf(),
        ensures
            final(self).wf(),
            old(self).receive_tlc_error(id, amount, expiry, now) is Some ==> r == Err::<(), ChannelError>(
                old(self).receive_tlc_error(id, amount, expiry, now)->Some_0,
            ) && *final(self) == *old(self),
            old(self).receive_tlc_error(id, amount, expiry, now) is None ==> {
                &&& r == Ok::<(), ChannelError>(())
                &&& final(self).received_tlcs@ == old(self).received_tlcs@.push(
                    (Tlc {
                        id,
                        amount,
                        payment_hash,
                        expiry,
                        hash_algorithm,
                        onion_packet,
                        previous_tlc,
                    }),
                )
                &&& count_id(final(self).received_tlcs@, id) == 1
                &&& final(self).remote_balance == old(self).remote_balance - amount
                &&& final(self).local_balance == old(self).local_balance
                &&& final(self).offered_tlcs@ == old(self).offered_tlcs@
                &&& final(self).next_received_tlc_id == old(self).next_received_tlc_id + 1
                &&& final(self).next_offered_tlc_id == old(self).next_offered_tlc_id
                &&& final(self).same_setup(old(self))
                &&& final(self).state == old(self).state
                &&& final(self).commitment_number_local == old(self).commitment_number_local
                &&& final(self).commitment_number_remote == old(self).commitment_number_remote
            },
    {
        if self.state != ChannelState::ChannelReady {
            return Err(ChannelError::IllegalState);
        }
        if id != self.next_received_tlc_id {
            return Err(ChannelError::InvalidParameter);
        }
        if amount < self.config.tlc_min_value || amount > self.config.tlc_max_value {
            return Err(ChannelError::TlcValueOutOfRange);
        }
        if self.received_tlcs.len() as u64 + self.offered_tlcs.len() as u64
            >= self.config.max_tlc_number_in_flight || amount > self.config.max_tlc_value_in_flight
            - self.received_tlc_balance - self.offered_tlc_balance || self.next_received_tlc_id
            == u64::MAX {
            return Err(ChannelError::TooManyInflightTlcs);
        }
        if amount > self.remote_balance {
            return Err(ChannelError::InsufficientBalance);
        }
        if expiry < now || expiry - now < self.config.tlc_locktime_expiry_delta {
            return Err(ChannelError::ExpiryTooSoon);
        }
        let tlc = Tlc {
            id,
            amount,
            payment_hash,
            expiry,
            hash_algorithm,
            onion_packet,
            previous_tlc,
        };
        proof {
            lemma_sum_push(self.received_tlcs@, tlc);
        }
        self.received_tlcs.push(tlc);
        self.received_tlc_balance = self.received_tlc_balance + amount;
        self.remote_balance = self.remote_balance - amount;
        self.next_received_tlc_id = id + 1;
        proof {
            let s = self.received_tlcs@;
            assert(ids_ordered_below(s, self.next_received_tlc_id));
            lemma_count_unique(s, self.next_received_tlc_id, s.len() - 1);
        }
        Ok(())
    }

    /// The position of offered TLC `id`, if it is pending.
    pub fn find_offered_tlc(&self, id: u64) -> (r: Option<usize>)
        requires
            self.wf(),
        ensures
            r is None <==> !has_id(self.offered_tlcs@, id),
            r is Some ==> r->Some_0 == index_of_id(self.offered_tlcs@, id),
            r is Some ==> r->Some_0 < self.offered_tlcs@.len() && self.offered_tlcs@[r->Some_0 as int].id == id,
    {
        let mut i: usize = 0;
        while i < self.offered_tlcs.len()
            invariant
                0 <= i <= self.offered_tlcs@.len(),
                self.wf(),
                forall|j: int| 0 <= j < i ==> #[trigger] self.offered_tlcs@[j].id != id,
            decreases self.offered_tlcs@.len() - i,
        {
            if self.offered_tlcs[i].id == id {
                proof {
                    let s = self.offered_tlcs@;
                    let k = index_of_id(s, id);
                    assert(has_id(s, id));
                    assert(0 <= k < s.len() && s[k].id == id);
                    if k != i {
                        if k < i {
                            assert(s[k].id != id);
                        } else {
                            assert(ids_ordered_below(s, self.next_offered_tlc_id));
                            assert(s[i as int].id < s[k].id);
                        }
                    }
                }
                return Some(i);
            }
            i = i + 1;
        }
        None
    }

    /// Removes offered TLC `id` for `reason`, where `preimage_digest` is the
    /// digest of the revealed preimage under the TLC's hash algorithm (it is
    /// read only for a fulfilment). A fulfilment credits the remote balance,
    /// a failure gives the amount back to the local balance. Returns the
    /// removed TLC, so that a forwarded one can be settled upstream.
    pub fn remove_tlc_with_digest(
        &mut self,
        id: u64,
        reason: RemoveTlcReason,
        preimage_digest: &Hash256,
    ) -> (r: Result<Tlc, ChannelError>)
        requires
            old(self).wf(),
        ensures
            final(self).wf(),
            old(self).remove_tlc_error(id, reason, preimage_digest@) is Some ==> r == Err::<
                Tlc,
                ChannelError,
            >(old(self).remove_tlc_error(id, reason, preimage_digest@)->Some_0) && *final(self)
                == *old(self),
            old(self).remove_tlc_error(id, reason, preimage_digest@) is None ==> r is Ok
                && ChannelActorState::tlc_removed(old(self), final(self), id, reason, r->Ok_0),
    {
        if self.state != ChannelState::ChannelReady && self.state != ChannelState::ShuttingDown {
            return Err(ChannelError::IllegalState);
        }
        let k = match self.find_offered_tlc(id) {
            None => {
                return Err(ChannelError::UnknownTlc);
            },
            Some(k) => k,
        };
        if let RemoveTlcReason::Fulfill { .. } = reason {
            if !preimage_digest.equals(&self.offered_tlcs[k].payment_hash) {
                return Err(ChannelError::InvalidParameter);
            }
        }
        proof {
            lemma_sum_remove(self.offered_tlcs@, k as int);
            lemma_sum_nonneg(self.offered_tlcs@.remove(k as int));
            lemma_sum_nonneg(self.received_tlcs@);
        }
        let ghost old_offered = self.offered_tlcs@;
        let tlc = self.offered_tlcs.remove(k);
        self.offered_tlc_balance = self.offered_tlc_balance - tlc.amount;
        match reason {
            RemoveTlcReason::Fulfill { .. } => {
                self.remote_balance = self.remote_balance + tlc.amount;
            },
            RemoveTlcReason::Fail { .. } => {
                self.local_balance = self.local_balance + tlc.amount;
            },
        }
        proof {
            let s = self.offered_tlcs@;
            assert(s == old_offered.remove(k as int));
            assert forall|i: int, j: int| 0 <= i < j < s.len() implies s[i].id < s[j].id by {
                let i0 = if i < k { i } else { i + 1 };
                let j0 = if j < k { j } else { j + 1 };
                assert(s[i] == old_offered[i0]);
                assert(s[j] == old_offered[j0]);
            }
            assert forall|i: int| 0 <= i < s.len() implies #[trigger] s[i].id
                < self.next_offered_tlc_id by {
                let i0 = if i < k { i } else { i + 1 };
                assert(s[i] == old_offered[i0]);
            }
            assert forall|i: int| 0 <= i < s.len() implies self.config.tlc_min_value
                <= #[trigger] s[i].amount <= self.config.tlc_max_value by {
                let i0 = if i < k { i } else { i + 1 };
                assert(s[i] == old_offered[i0]);
            }
        }
        Ok(tlc)
    }

    /// Removes offered TLC `id` for `reason`. A fulfilment must reveal a
    /// preimage whose digest, under the TLC's hash algorithm, is the TLC's
    /// payment hash.
    pub fn remove_tlc(&mut self, id: u64, reason: RemoveTlcReason) -> (r: Result<Tlc, ChannelError>)
        requires
            old(self).wf(),
        ensures
            final(self).wf(),
            ({
                let digest = match reason {
                    RemoveTlcReason::Fulfill { payment_preimage } => hash_with(
                        old(self).offered_tlcs@[index_of_id(
                            old(self).offered_tlcs@,
                            id,
                        )].hash_algorithm,
                        payment_preimage@,
                    ),
                    RemoveTlcReason::Fail { .. } => Seq::<u8>::empty(),
                };
                &&& old(self).remove_tlc_error(id, reason, digest) is Some ==> r == Err::<
                    Tlc,
                    ChannelError,
                >(old(self).remove_tlc_error(id, reason, digest)->Some_0) && *final(self)
                    == *old(self)
                &&& old(self).remove_tlc_error(id, reason, digest) is None ==> r is Ok
                    && ChannelActorState::tlc_removed(old(self), final(self), id, reason, r->Ok_0)
            }),
            r is Ok ==> (match reason {
                RemoveTlcReason::Fulfill { payment_preimage } => hash_with(
                    r->Ok_0.hash_algorithm,
                    payment_preimage@,
                ) == r->Ok_0.payment_hash@,
                RemoveTlcReason::Fail { .. } => true,
            }),
    {
        let digest = match reason {
            RemoveTlcReason::Fulfill { payment_preimage } => match self.find_offered_tlc(id) {
                Some(k) => hash_with_algorithm(
                    self.offered_tlcs[k].hash_algorithm,
                    &payment_preimage,
                ),
                None => Hash256 { bytes: [0u8; 32] },
            },
            RemoveTlcReason::Fail { .. } => Hash256 { bytes: [0u8; 32] },
        };
        self.remove_tlc_with_digest(id, reason, &digest)
    }

    /// The position of received TLC `id`, if it is pending.
    pub fn find_received_tlc(&self, id: u64) -> (r: Option<usize>)
        requires
            self.wf(),
        ensures
            r is None <==> !has_id(self.received_tlcs@, id),
            r is Some ==> r->Some_0 == index_of_id(self.received_tlcs@, id),
            r is Some ==> r->Some_0 < self.received_tlcs@.len() && self.received_tlcs@[r->Some_0 as int].id == id,
    {
        let mut i: usize = 0;
        while i < self.received_tlcs.len()
            invariant
                0 <= i <= self.received_tlcs@.len(),
                self.wf(),
                forall|j: int| 0 <= j < i ==> #[trigger] self.received_tlcs@[j].id != id,
            decreases self.received_tlcs@.len() - i,
        {
            if self.received_tlcs[i].id == id {
                proof {
                    let s = self.received_tlcs@;
                    let k = index_of_id(s, id);
                    assert(has_id(s, id));
                    assert(0 <= k < s.len() && s[k].id == id);
                    if k != i {
                        if k < i {
                            assert(s[k].id != id);
                        } else {
                            assert(ids_ordered_below(s, self.next_received_tlc_id));
                            assert(s[i as int].id < s[k].id);
                        }
                    }
                }
                return Some(i);
            }
            i = i + 1;
        }
        None
    }

    /// Removes received TLC `id` for `reason`, where `preimage_digest` is the
    /// digest of the revealed preimage under the TLC's hash algorithm (it is
    /// read only for a fulfilment). A fulfilment credits the local balance, a
    /// failure gives the amount back to the remote balance. Returns the
    /// removed TLC, so that a forwarded one can be settled upstream.
    pub fn settle_received_tlc_with_digest(
        &mut self,
        id: u64,
        reason: RemoveTlcReason,
        preimage_digest: &Hash256,
    ) -> (r: Result<Tlc, ChannelError>)
        requires
            old(self).wf(),
        ensures
            final(self).wf(),
            old(self).settle_received_tlc_error(id, reason, preimage_digest@) is Some ==> r == Err::<
                Tlc,
                ChannelError,
            >(old(self).settle_received_tlc_error(id, reason, preimage_digest@)->Some_0) && *final(self)
                == *old(self),
            old(self).settle_received_tlc_error(id, reason, preimage_digest@) is None ==> r is Ok
                && ChannelActorState::received_tlc_settled(old(self), final(self), id, reason, r->Ok_0),
    {
        if self.state != ChannelState::ChannelReady && self.state != ChannelState::ShuttingDown {
            return Err(ChannelError::IllegalState);
        }
        let k = match self.find_received_tlc(id) {
            None => {
                return Err(ChannelError::UnknownTlc);
            },
            Some(k) => k,
        };
        if let RemoveTlcReason::Fulfill { .. } = reason {
            if !preimage_digest.equals(&self.received_tlcs[k].payment_hash) {
                return Err(ChannelError::InvalidParameter);
            }
        }
        proof {
            lemma_sum_remove(self.received_tlcs@, k as int);
            lemma_sum_nonneg(self.received_tlcs@.remove(k as int));
            lemma_sum_nonneg(self.received_tlcs@);
        }
        let ghost old_offered = self.received_tlcs@;
        let tlc = self.received_tlcs.remove(k);
        self.received_tlc_balance = self.received_tlc_balance - tlc.amount;
        match reason {
            RemoveTlcReason::Fulfill { .. } => {
                self.local_balance = self.local_balance + tlc.amount;
            },
            RemoveTlcReason::Fail { .. } => {
                self.remote_balance = self.remote_balance + tlc.amount;
            },
        }
        proof {
            let s = self.received_tlcs@;
            assert(s == old_offered.remove(k as int));
            assert forall|i: int, j: int| 0 <= i < j < s.len() implies s[i].id < s[j].id by {
                let i0 = if i < k { i } else { i + 1 };
                let j0 = if j < k { j } else { j + 1 };
                assert(s[i] == old_offered[i0]);
                assert(s[j] == old_offered[j0]);
            }
            assert forall|i: int| 0 <= i < s.len() implies #[trigger] s[i].id
                < self.next_received_tlc_id by {
                let i0 = if i < k { i } else { i + 1 };
                assert(s[i] == old_offered[i0]);
            }
            assert forall|i: int| 0 <= i < s.len() implies self.config.tlc_min_value
                <= #[trigger] s[i].amount <= self.config.tlc_max_value by {
                let i0 = if i < k { i } else { i + 1 };
                assert(s[i] == old_offered[i0]);
            }
        }
        Ok(tlc)
    }

    /// Removes received TLC `id` for `reason`. A fulfilment must reveal a
    /// preimage whose digest, under the TLC's hash algorithm, is the TLC's
    /// payment hash.
    pub fn settle_received_tlc(&mut self, id: u64, reason: RemoveTlcReason) -> (r: Result<Tlc, ChannelError>)
        requires
            old(self).wf(),
        ensures
            final(self).wf(),
            ({
                let digest = match reason {
                    RemoveTlcReason::Fulfill { payment_preimage } => hash_with(
                        old(self).received_tlcs@[index_of_id(
                            old(self).received_tlcs@,
                            id,
                        )].hash_algorithm,
                        payment_preimage@,
                    ),
                    RemoveTlcReason::Fail { .. } => Seq::<u8>::empty(),
                };
                &&& old(self).settle_received_tlc_error(id, reason, digest) is Some ==> r == Err::<
                    Tlc,
                    ChannelError,
                >(old(self).settle_received_tlc_error(id, reason, digest)->Some_0) && *final(self)
                    == *old(self)
                &&& old(self).settle_received_tlc_error(id, reason, digest) is None ==> r is Ok
                    && ChannelActorState::received_tlc_settled(old(self), final(self), id, reason, r->Ok_0)
            }),
            r is Ok ==> (match reason {
                RemoveTlcReason::Fulfill { payment_preimage } => hash_with(
                    r->Ok_0.hash_algorithm,
                    payment_preimage@,
                ) == r->Ok_0.payment_hash@,
                RemoveTlcReason::Fail { .. } => true,
            }),
    {
        let digest = match reason {
            RemoveTlcReason::Fulfill { payment_preimage } => match self.find_received_tlc(id) {
                Some(k) => hash_with_algorithm(
                    self.received_tlcs[k].hash_algorithm,
                    &payment_preimage,
                ),
                None => Hash256 { bytes: [0u8; 32] },
            },
            RemoveTlcReason::Fail { .. } => Hash256 { bytes: [0u8; 32] },
        };
        self.settle_received_tlc_with_digest(id, reason, &digest)
    }

    /// Signs a new commitment that takes in every change since the last one:
    /// both commitment numbers advance by one.
    pub fn commitment_signed(&mut self) -> (r: Result<(), ChannelError>)
        requires
            old(self).wf(),
        ensures
            final(self).wf(),
            r is Err <==> ((old(self).state != ChannelState::ChannelReady && old(self).state
                != ChannelState::ShuttingDown) || old(self).commitment_number_local == u64::MAX
                || old(self).commitment_number_remote == u64::MAX),
            r is Err ==> r->Err_0 == ChannelError::IllegalState && *final(self) == *old(self),
            r is Ok ==> {
                &&& final(self).commitment_number_local == old(self).commitment_number_local + 1
                &&& final(self).commitment_number_remote == old(self).commitment_number_remote + 1
                &&& final(self).same_setup(old(self))
                &&& final(self).state == old(self).state
                &&& final(self).local_balance == old(self).local_balance
                &&& final(self).remote_balance == old(self).remote_balance
                &&& final(self).offered_tlcs == old(self).offered_tlcs
                &&& final(self).received_tlcs == old(self).received_tlcs
            },
    {
        if (self.state != ChannelState::ChannelReady && self.state != ChannelState::ShuttingDown)
            || self.commitment_number_local == u64::MAX || self.commitment_number_remote
            == u64::MAX {
            return Err(ChannelError::IllegalState);
        }
        self.commitment_number_local = self.commitment_number_local + 1;
        self.commitment_number_remote = self.commitment_number_remote + 1;
        Ok(())
    }

    /// Asks to close the channel, paying this side's funds to `close_script`
    /// at `fee_rate`. A cooperative close moves a ready channel to
    /// `ShuttingDown`; a forced one moves any open channel to `Closed`.
    pub fn shutdown(&mut self, close_script: Vec<u8>, fee_rate: u64, force: bool) -> (r: Result<
        (),
        ChannelError,
    >)
        requires
            old(self).wf(),
        ensures
            allowed_transition(old(self).state, final(self).state),
            final(self).wf(),
            r is Err <==> (old(self).state == ChannelState::Closed || (!force && old(self).state
                != ChannelState::ChannelReady)),
            r is Err ==> r->Err_0 == ChannelError::IllegalState && *final(self) == *old(self),
            r is Ok ==> final(self).state == (if force {
                ChannelState::Closed
            } else {
                ChannelState::ShuttingDown
            }),
            r is Ok ==> final(self).close_script == Some(close_script) && final(self).close_fee_rate
                == Some(fee_rate),
            r is Ok ==> final(self).same_setup(old(self)) && final(self).offered_tlcs
                == old(self).offered_tlcs && final(self).received_tlcs == old(self).received_tlcs
                && final(self).local_balance == old(self).local_balance
                && final(self).remote_balance == old(self).remote_balance,
    {
        if self.state == ChannelState::Closed {
            return Err(ChannelError::IllegalState);
        }
        if force {
            self.close_script = Some(close_script);
            self.close_fee_rate = Some(fee_rate);
            self.state = ChannelState::Closed;
            return Ok(());
        }
        if self.state != ChannelState::ChannelReady {
            return Err(ChannelError::IllegalState);
        }
        self.close_script = Some(close_script);
        self.close_fee_rate = Some(fee_rate);
        self.state = ChannelState::ShuttingDown;
        Ok(())
    }

    /// Completes a cooperative close once no TLC is pending and the closing
    /// signatures were exchanged (`closing_signed`). Returns whether the
    /// channel closed.
    pub fn close_if_settled(&mut self, closing_signed: bool) -> (r: bool)
        requires
            old(self).wf(),
        ensures
            final(self).wf(),
            allowed_transition(old(self).state, final(self).state),
            r == (old(self).state == ChannelState::ShuttingDown && old(self).offered_tlcs@.len()
                == 0 && old(self).received_tlcs@.len() == 0 && closing_signed),
            r ==> final(self).state == ChannelState::Closed && final(self).same_setup(old(self))
                && final(self).local_balance == old(self).local_balance
                && final(self).remote_balance == old(self).remote_balance
                && final(self).offered_tlcs == old(self).offered_tlcs
                && final(self).received_tlcs == old(self).received_tlcs
                && final(self).commitment_number_local == old(self).commitment_number_local
                && final(self).commitment_number_remote == old(self).commitment_number_remote,
            !r ==> *final(self) == *old(self),
    {
        if closing_signed && self.state == ChannelState::ShuttingDown && self.offered_tlcs.len() == 0
            && self.received_tlcs.len() == 0 {
            self.state = ChannelState::Closed;
            true
        } else {
            false
        }
    }
}

/// Checks that every TLC amount lies within `[min, max]`.
pub fn all_amounts_within(tlcs: &Vec<Tlc>, min: u128, max: u128) -> (r: bool)
    ensures
        r == amounts_within(tlcs@, min, max),
{
    let mut i: usize = 0;
    while i < tlcs.len()
        invariant
            0 <= i <= tlcs@.len(),
            forall|j: int| 0 <= j < i ==> min <= #[trigger] tlcs@[j].amount <= max,
        decreases tlcs@.len() - i,
    {
        if tlcs[i].amount < min || tlcs[i].amount > max {
            return false;
        }
        i = i + 1;
    }
    true
}

/// An announcement of a channel's new forwarding policy.
#[derive(Clone, Copy, Debug, PartialEq, Eq)]
pub struct ChannelUpdate {
    pub channel_id: Hash256,
    pub timestamp: u64,
    pub enabled: bool,
    pub tlc_locktime_expiry_delta: u64,
    pub tlc_min_value: u128,
    pub tlc_max_value: u128,
    pub tlc_fee_proportional_millionths: u128,
}

/// The forwarding policy after an update: each given field replaces the
/// current one.
pub open spec fn updated_config(
    cfg: ChannelConfig,
    enabled: Option<bool>,
    tlc_locktime_expiry_delta: Option<u64>,
    tlc_minimum_value: Option<u128>,
    tlc_maximum_value: Option<u128>,
    tlc_fee_proportional_millionths: Option<u128>,
) -> ChannelConfig {
    ChannelConfig {
        enabled: match enabled {
            Some(v) => v,
            None => cfg.enabled,
        },
        tlc_locktime_expiry_delta: match tlc_locktime_expiry_delta {
            Some(v) => v,
            None => cfg.tlc_locktime_expiry_delta,
        },
        tlc_min_value: match tlc_minimum_value {
            Some(v) => v,
            None => cfg.tlc_min_value,
        },
        tlc_max_value: match tlc_maximum_value {
            Some(v) => v,
            None => cfg.tlc_max_value,
        },
        tlc_fee_proportional_millionths: match tlc_fee_proportional_millionths {
            Some(v) => v,
            None => cfg.tlc_fee_proportional_millionths,
        },
        ..cfg
    }
}

impl ChannelActorState {
    /// Changes the local forwarding policy. The new bounds must be consistent
    /// and admit every pending TLC; a closed channel takes no update.
    pub fn update(
        &mut self,
        enabled: Option<bool>,
        tlc_locktime_expiry_delta: Option<u64>,
        tlc_minimum_value: Option<u128>,
        tlc_maximum_value: Option<u128>,
        tlc_fee_proportional_millionths: Option<u128>,
    ) -> (r: Result<ChannelUpdate, ChannelError>)
        requires
            old(self).wf(),
        ensures
            final(self).wf(),
            ({
                let cfg = updated_config(
                    old(self).config,
                    enabled,
                    tlc_locktime_expiry_delta,
                    tlc_minimum_value,
                    tlc_maximum_value,
                    tlc_fee_proportional_millionths,
                );
                &&& (old(self).state == ChannelState::Closed || old(self).last_update_timestamp
                    == u64::MAX) ==> r == Err::<ChannelUpdate, ChannelError>(
                    ChannelError::IllegalState,
                )
                &&& old(self).state != ChannelState::Closed && old(self).last_update_timestamp
                    < u64::MAX && !(cfg.consistent()
                    && amounts_within(old(self).offered_tlcs@, cfg.tlc_min_value, cfg.tlc_max_value)
                    && amounts_within(
                    old(self).received_tlcs@,
                    cfg.tlc_min_value,
                    cfg.tlc_max_value,
                )) ==> r == Err::<ChannelUpdate, ChannelError>(ChannelError::InvalidParameter)
                &&& r is Err ==> *final(self) == *old(self)
                &&& r is Ok ==> final(self).config == cfg && final(self).same_except_config(
                    old(self),
                ) && final(self).last_update_timestamp == old(self).last_update_timestamp + 1
                    && r->Ok_0 == (ChannelUpdate {
                    channel_id: old(self).id,
                    timestamp: (old(self).last_update_timestamp + 1) as u64,
                    enabled: cfg.enabled,
                    tlc_locktime_expiry_delta: cfg.tlc_locktime_expiry_delta,
                    tlc_min_value: cfg.tlc_min_value,
                    tlc_max_value: cfg.tlc_max_value,
                    tlc_fee_proportional_millionths: cfg.tlc_fee_proportional_millionths,
                })
            }),
            r is Ok <==> (old(self).state != ChannelState::Closed && old(self).last_update_timestamp
                < u64::MAX && ({
                let cfg = updated_config(
                    old(self).config,
                    enabled,
                    tlc_locktime_expiry_delta,
                    tlc_minimum_value,
                    tlc_maximum_value,
                    tlc_fee_proportional_millionths,
                );
                cfg.consistent() && amounts_within(
                    old(self).offered_tlcs@,
                    cfg.tlc_min_value,
                    cfg.tlc_max_value,
                ) && amounts_within(old(self).received_tlcs@, cfg.tlc_min_value, cfg.tlc_max_value)
            })),
    {
        if self.state == ChannelState::Closed || self.last_update_timestamp == u64::MAX {
            return Err(ChannelError::IllegalState);
        }
        let mut cfg = self.config;
        if let Some(v) = enabled {
            cfg.enabled = v;
        }
        if let Some(v) = tlc_locktime_expiry_delta {
            cfg.tlc_locktime_expiry_delta = v;
        }
        if let Some(v) = tlc_minimum_value {
            cfg.tlc_min_value = v;
        }
        if let Some(v) = tlc_maximum_value {
            cfg.tlc_max_value = v;
        }
        if let Some(v) = tlc_fee_proportional_millionths {
            cfg.tlc_fee_proportional_millionths = v;
        }
        if !cfg.is_consistent() || !all_amounts_within(
            &self.offered_tlcs,
            cfg.tlc_min_value,
            cfg.tlc_max_value,
        ) || !all_amounts_within(&self.received_tlcs, cfg.tlc_min_value, cfg.tlc_max_value) {
            return Err(ChannelError::InvalidParameter);
        }
        self.config = cfg;
        self.last_update_timestamp = self.last_update_timestamp + 1;
        Ok(
            ChannelUpdate {
                channel_id: self.id,
                timestamp: self.last_update_timestamp,
                enabled: cfg.enabled,
                tlc_locktime_expiry_delta: cfg.tlc_locktime_expiry_delta,
                tlc_min_value: cfg.tlc_min_value,
                tlc_max_value: cfg.tlc_max_value,
                tlc_fee_proportional_millionths: cfg.tlc_fee_proportional_millionths,
            },
        )
    }

    /// Everything but the configuration is as in `other`.
    pub open spec fn same_except_config(&self, other: &ChannelActorState) -> bool {
        &&& self.id == other.id
        &&& self.state == other.state
        &&& self.remote_peer_id == other.remote_peer_id
        &&& self.local_balance == other.local_balance
        &&& self.remote_balance == other.remote_balance
        &&& self.capacity == other.capacity
        &&& self.offered_tlcs == other.offered_tlcs
        &&& self.received_tlcs == other.received_tlcs
        &&& self.offered_tlc_balance == other.offered_tlc_balance
        &&& self.received_tlc_balance == other.received_tlc_balance
        &&& self.next_offered_tlc_id == other.next_offered_tlc_id
        &&& self.next_received_tlc_id == other.next_received_tlc_id
        &&& self.commitment_number_local == other.commitment_number_local
        &&& self.commitment_number_remote == other.commitment_number_remote
        &&& self.funding_udt_type_script == other.funding_udt_type_script
        &&& self.created_at_microseconds == other.created_at_microseconds
    }

    /// The settled local balance.
    pub fn get_local_balance(&self) -> (r: u128)
        ensures
            r == self.local_balance,
    {
        self.local_balance
    }

    /// The settled remote balance.
    pub fn get_remote_balance(&self) -> (r: u128)
        ensures
            r == self.remote_balance,
    {
        self.remote_balance
    }

    /// The total of the TLCs this side offered.
    pub fn get_offered_tlc_balance(&self) -> (r: u128)
        requires
            self.wf(),
        ensures
            r == sum_amounts(self.offered_tlcs@),
    {
        self.offered_tlc_balance
    }

    /// The total of the TLCs this side received.
    pub fn get_received_tlc_balance(&self) -> (r: u128)
        requires
            self.wf(),
        ensures
            r == sum_amounts(self.received_tlcs@),
    {
        self.received_tlc_balance
    }

    /// When the channel was created, in microseconds.
    pub fn get_created_at_in_microseconds(&self) -> (r: u64)
        ensures
            r == self.created_at_microseconds,
    {
        self.created_at_microseconds
    }

    /// The peer on the other side.
    pub fn get_remote_peer_id(&self) -> (r: &PeerId)
        ensures
            *r == self.remote_peer_id,
    {
        &self.remote_peer_id
    }
}

/// Funds are conserved: in a channel at rest both balances and everything in
/// flight add up to the channel's capacity.
pub proof fn lemma_balance_conserved(s: ChannelActorState)
    requires
        s.wf(),
    ensures
        s.local_balance + s.remote_balance + sum_amounts(s.offered_tlcs@) + sum_amounts(
            s.received_tlcs@,
        ) == s.capacity,
{
}

/// The final id of a channel opened under the temporary id `temp_id`: both
/// sides derive the same one.
pub fn derive_channel_id(temp_id: &Hash256) -> (r: Hash256)
    ensures
        r@ == blake2b_256_of(temp_id@),
{
    hash_with_algorithm(HashAlgorithm::CkbHash, temp_id)
}

} // verus!
