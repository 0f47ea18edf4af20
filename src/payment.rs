use vstd::prelude::*;

use crate::graph::{route_valid, NetworkGraph, RouteHop};
use crate::errors::RouteError;
use crate::hashing::{hash_with, hash_with_algorithm};
use crate::invoice::CkbInvoice;
use crate::keys::{prefixed, PAYMENT_SESSION_PREFIX};
use crate::store::{stored_payment_session, Store, StoredValue};
use crate::types::{HashAlgorithm, Hash256, Pubkey};

verus! {

/// Where a payment stands.
#[derive(Clone, Copy, Debug, PartialEq, Eq, Structural)]
pub enum PaymentSessionStatus {
    Created,
    Inflight,
    Success,
    Failed,
}

/// Server-side record of one payment's lifecycle.
#[derive(Clone, Debug, PartialEq, Eq)]
pub struct PaymentSession {
    pub payment_hash: Hash256,
    pub status: PaymentSessionStatus,
    pub amount: u128,
    pub max_fee_amount: Option<u128>,
    pub created_at: u128,
    pub last_updated_at: u128,
    pub failed_error: Option<String>,
    pub current_attempt: u32,
    /// The route of the attempt in flight.
    pub chosen_route: Vec<RouteHop>,
}

impl PaymentSession {
    /// A new session for `payment_hash`, created at `now` (microseconds).
    pub fn new(payment_hash: Hash256, amount: u128, max_fee_amount: Option<u128>, now: u128) -> (r:
        PaymentSession)
        ensures
            r.payment_hash == payment_hash,
            r.status == PaymentSessionStatus::Created,
            r.amount == amount,
            r.max_fee_amount == max_fee_amount,
            r.created_at == now,
            r.last_updated_at == now,
            r.failed_error is None,
            r.current_attempt == 0,
            r.chosen_route@.len() == 0,
    {
        PaymentSession {
            payment_hash,
            status: PaymentSessionStatus::Created,
            amount,
            max_fee_amount,
            created_at: now,
            last_updated_at: now,
            failed_error: None,
            current_attempt: 0,
            chosen_route: Vec::new(),
        }
    }

    /// The session's payment hash.
    pub fn payment_hash(&self) -> (r: &Hash256)
        ensures
            *r == self.payment_hash,
    {
        &self.payment_hash
    }

    /// A terminal session no longer changes.
    pub open spec fn is_terminal(&self) -> bool {
        self.status == PaymentSessionStatus::Success || self.status == PaymentSessionStatus::Failed
    }

    /// A first hop was offered: the session is in flight. A terminal session
    /// is left as it is. Returns whether the status changed.
    pub fn set_inflight(&mut self, now: u128) -> (r: bool)
        ensures
            r == !old(self).is_terminal(),
            r ==> final(self).status == PaymentSessionStatus::Inflight && final(self).last_updated_at
                == now && final(self).current_attempt == (if old(self).current_attempt == u32::MAX {
                u32::MAX
            } else {
                (old(self).current_attempt + 1) as u32
            }),
            !r ==> *final(self) == *old(self),
            final(self).payment_hash == old(self).payment_hash,
            final(self).amount == old(self).amount,
            final(self).max_fee_amount == old(self).max_fee_amount,
            final(self).chosen_route == old(self).chosen_route,
            final(self).created_at == old(self).created_at,
            final(self).failed_error == old(self).failed_error,
    {
        if self.status == PaymentSessionStatus::Success || self.status
            == PaymentSessionStatus::Failed {
            return false;
        }
        self.status = PaymentSessionStatus::Inflight;
        self.last_updated_at = now;
        if self.current_attempt < u32::MAX {
            self.current_attempt = self.current_attempt + 1;
        }
        true
    }

    /// The preimage came back: the payment succeeded. Only a session in
    /// flight can succeed. Returns whether the status changed.
    pub fn set_success(&mut self, now: u128) -> (r: bool)
        ensures
            r == (old(self).status == PaymentSessionStatus::Inflight),
            r ==> final(self).status == PaymentSessionStatus::Success && final(self).last_updated_at
                == now,
            !r ==> *final(self) == *old(self),
            final(self).payment_hash == old(self).payment_hash,
            final(self).amount == old(self).amount,
            final(self).max_fee_amount == old(self).max_fee_amount,
            final(self).chosen_route == old(self).chosen_route,
            final(self).created_at == old(self).created_at,
            final(self).current_attempt == old(self).current_attempt,
            final(self).failed_error == old(self).failed_error,
    {
        if self.status != PaymentSessionStatus::Inflight {
            return false;
        }
        self.status = PaymentSessionStatus::Success;
        self.last_updated_at = now;
        true
    }

    /// The payment failed with `error`, for good. A terminal session is left
    /// as it is. Returns whether the status changed.
    pub fn set_failed(&mut self, error: String, now: u128) -> (r: bool)
        ensures
            r == !old(self).is_terminal(),
            r ==> final(self).status == PaymentSessionStatus::Failed && final(self).last_updated_at
                == now && final(self).failed_error == Some(error),
            !r ==> *final(self) == *old(self),
            final(self).payment_hash == old(self).payment_hash,
            final(self).amount == old(self).amount,
            final(self).max_fee_amount == old(self).max_fee_amount,
            final(self).chosen_route == old(self).chosen_route,
            final(self).created_at == old(self).created_at,
            final(self).current_attempt == old(self).current_attempt,
    {
        if self.status == PaymentSessionStatus::Success || self.status
            == PaymentSessionStatus::Failed {
            return false;
        }
        self.status = PaymentSessionStatus::Failed;
        self.last_updated_at = now;
        self.failed_error = Some(error);
        true
    }
}


/// How many times a payment is tried before it fails for good.
pub const MAX_PAYMENT_ATTEMPTS: u32 = 3;

/// What happened to the TLC a session has in flight.
#[derive(Clone, Debug, PartialEq, Eq)]
pub enum PaymentEvent {
    /// The preimage came back.
    Fulfilled,
    /// A hop failed the TLC with this reason.
    Failed { error: String },
    /// The session's deadline passed first.
    TimedOut,
}

/// What the caller does next for a session.
#[derive(Clone, Copy, Debug, PartialEq, Eq, Structural)]
pub enum PaymentAction {
    /// The payment succeeded.
    Finish,
    /// Look for another route and offer a new first hop.
    Retry,
    /// The payment failed; fail the TLC upstream if one is still held.
    GiveUp,
    /// The event does not apply to this session.
    Ignore,
}

impl PaymentSession {
    /// Takes in an event for the session's TLC. A fulfilment ends the
    /// payment; a failure asks for another attempt while fewer than
    /// `MAX_PAYMENT_ATTEMPTS` were made, and ends it otherwise; a timeout
    /// ends it. Only a session in flight takes events.
    pub fn on_event(&mut self, event: PaymentEvent, now: u128) -> (r: PaymentAction)
        ensures
            old(self).status != PaymentSessionStatus::Inflight ==> r == PaymentAction::Ignore
                && *final(self) == *old(self),
            old(self).status == PaymentSessionStatus::Inflight ==> match event {
                PaymentEvent::Fulfilled => r == PaymentAction::Finish && final(self).status
                    == PaymentSessionStatus::Success,
                PaymentEvent::Failed { error } => if old(self).current_attempt
                    < MAX_PAYMENT_ATTEMPTS {
                    r == PaymentAction::Retry && final(self).status == PaymentSessionStatus::Inflight
                        && final(self).failed_error == old(self).failed_error
                } else {
                    r == PaymentAction::GiveUp && final(self).status == PaymentSessionStatus::Failed
                        && final(self).failed_error == Some(error)
                },
                PaymentEvent::TimedOut => r == PaymentAction::GiveUp && final(self).status
                    == PaymentSessionStatus::Failed && final(self).failed_error is Some,
            },
            old(self).status == PaymentSessionStatus::Inflight ==> final(self).last_updated_at == now,
            final(self).payment_hash == old(self).payment_hash,
            final(self).amount == old(self).amount,
            final(self).created_at == old(self).created_at,
            final(self).current_attempt == old(self).current_attempt,
    {
        if self.status != PaymentSessionStatus::Inflight {
            return PaymentAction::Ignore;
        }
        match event {
            PaymentEvent::Fulfilled => {
                self.set_success(now);
                PaymentAction::Finish
            },
            PaymentEvent::Failed { error } => {
                if self.current_attempt < MAX_PAYMENT_ATTEMPTS {
                    self.last_updated_at = now;
                    PaymentAction::Retry
                } else {
                    self.set_failed(error, now);
                    PaymentAction::GiveUp
                }
            },
            PaymentEvent::TimedOut => {
                self.set_failed(String::from_str("payment timeout"), now);
                PaymentAction::GiveUp
            },
        }
    }
}

/// A request to pay, by explicit fields, by invoice, or both where they
/// agree.
#[derive(Clone, Debug, PartialEq, Eq)]
pub struct SendPaymentRequest {
    pub target_pubkey: Option<Pubkey>,
    pub amount: Option<u128>,
    pub payment_hash: Option<Hash256>,
    pub final_cltv_delta: Option<u64>,
    pub invoice: Option<CkbInvoice>,
    pub timeout: Option<u64>,
    pub max_fee_amount: Option<u128>,
    pub max_parts: Option<u64>,
    pub keysend: Option<bool>,
    pub allow_self_payment: bool,
}

/// Why a payment could not start.
#[derive(Clone, Copy, Debug, PartialEq, Eq, Structural)]
pub enum PaymentError {
    /// Missing or conflicting fields.
    InvalidParameter,
    NoRoute,
    FeeExceedsMax,
}

/// The value given by either side, `None` where neither gives one or the two
/// disagree.
pub open spec fn merged_pubkey(a: Option<Pubkey>, b: Option<Pubkey>) -> Option<Pubkey> {
    match (a, b) {
        (Some(x), Some(y)) => if x@ == y@ {
            Some(x)
        } else {
            None
        },
        (Some(x), None) => Some(x),
        (None, Some(y)) => Some(y),
        (None, None) => None,
    }
}

pub open spec fn merged_amount(a: Option<u128>, b: Option<u128>) -> Option<u128> {
    match (a, b) {
        (Some(x), Some(y)) => if x == y {
            Some(x)
        } else {
            None
        },
        (Some(x), None) => Some(x),
        (None, Some(y)) => Some(y),
        (None, None) => None,
    }
}

pub open spec fn merged_hash(a: Option<Hash256>, b: Option<Hash256>) -> Option<Seq<u8>> {
    match (a, b) {
        (Some(x), Some(y)) => if x@ == y@ {
            Some(x@)
        } else {
            None
        },
        (Some(x), None) => Some(x@),
        (None, Some(y)) => Some(y@),
        (None, None) => None,
    }
}

impl SendPaymentRequest {
    pub open spec fn is_keysend(&self) -> bool {
        self.keysend == Some(true)
    }

    pub open spec fn target(&self) -> Option<Pubkey> {
        merged_pubkey(
            self.target_pubkey,
            match self.invoice {
                Some(i) => i.payee_pub_key,
                None => None,
            },
        )
    }

    pub open spec fn spec_amount(&self) -> Option<u128> {
        merged_amount(
            self.amount,
            match self.invoice {
                Some(i) => i.amount,
                None => None,
            },
        )
    }

    /// The payment hash: for keysend the hash of the payer's own preimage,
    /// else the one the request and its invoice agree on.
    pub open spec fn hash(&self, keysend_preimage: Seq<u8>) -> Option<Seq<u8>> {
        if self.is_keysend() {
            if self.payment_hash is Some || self.invoice is Some {
                None
            } else {
                Some(hash_with(HashAlgorithm::CkbHash, keysend_preimage))
            }
        } else {
            merged_hash(
                self.payment_hash,
                match self.invoice {
                    Some(i) => Some(i.payment_hash),
                    None => None,
                },
            )
        }
    }

    /// The request names a target, an amount and a payment hash without
    /// conflict, and pays someone else unless self-payment is allowed.
    pub open spec fn well_formed(&self, source: Pubkey, keysend_preimage: Seq<u8>) -> bool {
        &&& self.target() is Some
        &&& self.spec_amount() is Some
        &&& self.spec_amount()->Some_0 > 0
        &&& self.hash(keysend_preimage) is Some
        &&& (self.target()->Some_0@ == source@ ==> self.allow_self_payment)
    }
}

fn merge_pubkey(a: Option<Pubkey>, b: Option<Pubkey>) -> (r: Option<Pubkey>)
    ensures
        r == merged_pubkey(a, b),
{
    match (a, b) {
        (Some(x), Some(y)) => if x.equals(&y) {
            Some(x)
        } else {
            None
        },
        (Some(x), None) => Some(x),
        (None, Some(y)) => Some(y),
        (None, None) => None,
    }
}

fn merge_amount(a: Option<u128>, b: Option<u128>) -> (r: Option<u128>)
    ensures
        r == merged_amount(a, b),
{
    match (a, b) {
        (Some(x), Some(y)) => if x == y {
            Some(x)
        } else {
            None
        },
        (Some(x), None) => Some(x),
        (None, Some(y)) => Some(y),
        (None, None) => None,
    }
}

fn merge_hash(a: Option<Hash256>, b: Option<Hash256>) -> (r: Option<Hash256>)
    ensures
        r is Some == merged_hash(a, b) is Some,
        r is Some ==> r->Some_0@ == merged_hash(a, b)->Some_0,
{
    match (a, b) {
        (Some(x), Some(y)) => if x.equals(&y) {
            Some(x)
        } else {
            None
        },
        (Some(x), None) => Some(x),
        (None, Some(y)) => Some(y),
        (None, None) => None,
    }
}

/// Starts a payment from `source`: checks the request, finds a route for its
/// amount within `max_fee_amount` (no bound where none is given), and stores
/// the session, in flight since `now` on the chosen route, under its payment
/// hash. A payment to oneself, where allowed, moves nothing and succeeds at
/// once. `keysend_preimage` is the fresh random preimage a keysend payment
/// pays to; other payments ignore it. Returns the payment hash.
pub fn start_payment(
    graph: &NetworkGraph,
    store: &mut Store,
    source: &Pubkey,
    request: &SendPaymentRequest,
    keysend_preimage: &Hash256,
    now: u128,
) -> (r: Result<Hash256, PaymentError>)
    requires
        graph.wf(),
        old(store).wf(),
    ensures
        final(store).wf(),
        !request.well_formed(*source, keysend_preimage@) <==> r == Err::<Hash256, PaymentError>(
            PaymentError::InvalidParameter,
        ),
        r is Err ==> final(store)@ == old(store)@,
        r is Ok ==> {
            let h = r->Ok_0@;
            let s = stored_payment_session(final(store)@, h)->Some_0;
            &&& h == request.hash(keysend_preimage@)->Some_0
            &&& stored_payment_session(final(store)@, h) is Some
            &&& final(store)@ == old(store)@.insert(
                prefixed(PAYMENT_SESSION_PREFIX, h),
                StoredValue::PaymentSession(s),
            )
            &&& s.payment_hash@ == h
            &&& s.amount == request.spec_amount()->Some_0
            &&& s.max_fee_amount == request.max_fee_amount
            &&& s.created_at == now
            &&& s.last_updated_at == now
            &&& s.failed_error is None
            &&& s.current_attempt == 1
            &&& (request.target()->Some_0@ == source@ ==> s.status == PaymentSessionStatus::Success
                && s.chosen_route@.len() == 0)
            &&& (request.target()->Some_0@ != source@ ==> s.status == PaymentSessionStatus::Inflight
                && route_valid(
                graph.channels@,
                *source,
                request.target()->Some_0,
                request.spec_amount()->Some_0,
                match request.max_fee_amount {
                    Some(m) => m,
                    None => u128::MAX,
                },
                s.chosen_route@,
            ))
        },
{
    let (inv_target, inv_amount, inv_hash) = match &request.invoice {
        Some(i) => (i.payee_pub_key, i.amount, Some(i.payment_hash)),
        None => (None, None, None),
    };
    let target = match merge_pubkey(request.target_pubkey, inv_target) {
        Some(t) => t,
        None => {
            return Err(PaymentError::InvalidParameter);
        },
    };
    let amount = match merge_amount(request.amount, inv_amount) {
        Some(a) => a,
        None => {
            return Err(PaymentError::InvalidParameter);
        },
    };
    if amount == 0 {
        return Err(PaymentError::InvalidParameter);
    }
    let keysend = match request.keysend {
        Some(k) => k,
        None => false,
    };
    let payment_hash = if keysend {
        if request.payment_hash.is_some() || request.invoice.is_some() {
            return Err(PaymentError::InvalidParameter);
        }
        hash_with_algorithm(HashAlgorithm::CkbHash, keysend_preimage)
    } else {
        match merge_hash(request.payment_hash, inv_hash) {
            Some(h) => h,
            None => {
                return Err(PaymentError::InvalidParameter);
            },
        }
    };
    let to_self = target.equals(source);
    if to_self && !request.allow_self_payment {
        return Err(PaymentError::InvalidParameter);
    }
    let max_fee = match request.max_fee_amount {
        Some(m) => m,
        None => u128::MAX,
    };
    let mut session = PaymentSession::new(payment_hash, amount, request.max_fee_amount, now);
    session.set_inflight(now);
    if to_self {
        session.set_success(now);
    } else {
        let route = match graph.find_route(source, &target, amount, max_fee) {
            Ok(route) => route,
            Err(RouteError::FeeExceedsMax) => {
                return Err(PaymentError::FeeExceedsMax);
            },
            Err(_) => {
                return Err(PaymentError::NoRoute);
            },
        };
        session.chosen_route = route;
    }
    let ghost gs = session;
    store.insert_payment_session(session);
    proof {
        crate::store::lemma_payment_session_round_trip(old(store)@, gs);
    }
    Ok(payment_hash)
}

} // verus!
