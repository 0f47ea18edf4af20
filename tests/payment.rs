use fiber_core::graph::{ChannelInfo, NetworkGraph};
use fiber_core::invoice::{CkbInvoice, Currency};
use fiber_core::keys::OutPoint;
use fiber_core::payment::{
    start_payment, PaymentAction, PaymentError, PaymentEvent, PaymentSession, PaymentSessionStatus,
    SendPaymentRequest, MAX_PAYMENT_ATTEMPTS,
};
use fiber_core::store::Store;
use fiber_core::types::{Hash256, Pubkey};

fn pk(b: u8) -> Pubkey {
    Pubkey { bytes: [b; 33] }
}

fn graph() -> NetworkGraph {
    let mut g = NetworkGraph::new();
    g.process_channel_update(ChannelInfo {
        out_point: OutPoint { tx_hash: Hash256 { bytes: [1; 32] }, index: 0 },
        node1: pk(1),
        node2: pk(2),
        capacity: 1000,
        fee_rate: 0,
        enabled: true,
        timestamp: 1,
        funding_tx_block_number: 1,
        funding_tx_index: 0,
    });
    g
}

fn request() -> SendPaymentRequest {
    SendPaymentRequest {
        target_pubkey: Some(pk(2)),
        amount: Some(100),
        payment_hash: Some(Hash256 { bytes: [9; 32] }),
        final_cltv_delta: None,
        invoice: None,
        timeout: None,
        max_fee_amount: None,
        max_parts: None,
        keysend: None,
        allow_self_payment: false,
    }
}

#[test]
fn payment_starts_in_flight() {
    let g = graph();
    let unused = Hash256 { bytes: [0; 32] };
    let mut store = Store::new();
    let h = start_payment(&g, &mut store, &pk(1), &request(), &unused, 77).unwrap();
    let s = store.get_payment_session(&h).unwrap();
    let route = &s.chosen_route;
    assert_eq!(s.status, PaymentSessionStatus::Inflight);
    assert_eq!(s.payment_hash, Hash256 { bytes: [9; 32] });
    assert_eq!(s.amount, 100);
    assert_eq!(s.created_at, 77);
    assert_eq!(route.len(), 1);
    assert_eq!(route[0].amount, 100);
}

#[test]
fn keysend_pays_to_the_hash_of_its_preimage() {
    let g = graph();
    let mut req = request();
    req.payment_hash = None;
    req.keysend = Some(true);
    let preimage = Hash256 { bytes: [4; 32] };
    let mut store = Store::new();
    let h = start_payment(&g, &mut store, &pk(1), &req, &preimage, 1).unwrap();
    assert_eq!(h.bytes, ckb_hash::blake2b_256(preimage.bytes));
    assert!(store.get_payment_session(&h).is_some());
    req.payment_hash = Some(Hash256 { bytes: [9; 32] });
    assert_eq!(start_payment(&g, &mut Store::new(), &pk(1), &req, &preimage, 1).err(), Some(PaymentError::InvalidParameter));
}

#[test]
fn invoice_fields_must_agree() {
    let g = graph();
    let preimage = Hash256 { bytes: [4; 32] };
    let mut inv = CkbInvoice::from_preimage(Currency::Fibb, Some(100), &preimage);
    inv.payee_pub_key = Some(pk(2));
    let mut req = request();
    req.payment_hash = None;
    req.invoice = Some(inv.clone());
    let mut store = Store::new();
    let h = start_payment(&g, &mut store, &pk(1), &req, &preimage, 1).unwrap();
    assert_eq!(h, inv.payment_hash);
    req.amount = Some(99);
    assert_eq!(start_payment(&g, &mut Store::new(), &pk(1), &req, &preimage, 1).err(), Some(PaymentError::InvalidParameter));
}

#[test]
fn payment_errors() {
    let g = graph();
    let unused = Hash256 { bytes: [0; 32] };
    let mut req = request();
    req.target_pubkey = None;
    assert_eq!(start_payment(&g, &mut Store::new(), &pk(1), &req, &unused, 1).err(), Some(PaymentError::InvalidParameter));
    let mut req = request();
    req.target_pubkey = Some(pk(1));
    assert_eq!(start_payment(&g, &mut Store::new(), &pk(1), &req, &unused, 1).err(), Some(PaymentError::InvalidParameter));
    let mut req = request();
    req.target_pubkey = Some(pk(3));
    assert_eq!(start_payment(&g, &mut Store::new(), &pk(1), &req, &unused, 1).err(), Some(PaymentError::NoRoute));
    let mut req = request();
    req.amount = Some(0);
    assert_eq!(start_payment(&g, &mut Store::new(), &pk(1), &req, &unused, 1).err(), Some(PaymentError::InvalidParameter));
}

#[test]
fn payment_lifecycle_retries_then_fails() {
    let mut s = PaymentSession::new(Hash256 { bytes: [1; 32] }, 10, None, 0);
    assert_eq!(s.on_event(PaymentEvent::Fulfilled, 1), PaymentAction::Ignore);
    for attempt in 1..MAX_PAYMENT_ATTEMPTS {
        assert!(s.set_inflight(attempt as u128));
        let e = PaymentEvent::Failed { error: "temporary_node_failure".to_string() };
        assert_eq!(s.on_event(e, 10), PaymentAction::Retry);
        assert_eq!(s.status, PaymentSessionStatus::Inflight);
    }
    assert!(s.set_inflight(20));
    let e = PaymentEvent::Failed { error: "temporary_node_failure".to_string() };
    assert_eq!(s.on_event(e, 21), PaymentAction::GiveUp);
    assert_eq!(s.status, PaymentSessionStatus::Failed);
    assert_eq!(s.failed_error, Some("temporary_node_failure".to_string()));
    assert_eq!(s.last_updated_at, 21);
}

#[test]
fn payment_lifecycle_success_and_timeout() {
    let mut s = PaymentSession::new(Hash256 { bytes: [1; 32] }, 10, None, 0);
    s.set_inflight(1);
    assert_eq!(s.on_event(PaymentEvent::Fulfilled, 2), PaymentAction::Finish);
    assert_eq!(s.status, PaymentSessionStatus::Success);
    assert_eq!(s.on_event(PaymentEvent::TimedOut, 3), PaymentAction::Ignore);
    let mut t = PaymentSession::new(Hash256 { bytes: [2; 32] }, 10, None, 0);
    t.set_inflight(1);
    assert_eq!(t.on_event(PaymentEvent::TimedOut, 5), PaymentAction::GiveUp);
    assert_eq!(t.status, PaymentSessionStatus::Failed);
    assert!(t.failed_error.is_some());
}

#[test]
fn allowed_self_payment_succeeds_at_once() {
    let g = graph();
    let unused = Hash256 { bytes: [0; 32] };
    let mut req = request();
    req.target_pubkey = Some(pk(1));
    req.allow_self_payment = true;
    let mut store = Store::new();
    let h = start_payment(&g, &mut store, &pk(1), &req, &unused, 9).unwrap();
    let s = store.get_payment_session(&h).unwrap();
    assert_eq!(s.status, PaymentSessionStatus::Success);
    assert!(s.chosen_route.is_empty());
}

#[test]
fn failed_start_leaves_the_store_alone() {
    let g = graph();
    let unused = Hash256 { bytes: [0; 32] };
    let mut req = request();
    req.target_pubkey = Some(pk(3));
    let mut store = Store::new();
    assert_eq!(start_payment(&g, &mut store, &pk(1), &req, &unused, 1).err(), Some(PaymentError::NoRoute));
    assert!(store.get_payment_session(&Hash256 { bytes: [9; 32] }).is_none());
}
