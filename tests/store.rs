use fiber_core::channel::{
    OpenChannelOptions,ChannelActorState, ChannelConfig};
use fiber_core::errors::InvoiceError;
use fiber_core::graph::{ChannelInfo, NodeInfo};
use fiber_core::invoice::{CkbInvoice, Currency};
use fiber_core::keys::{
    channel_announcement_index_key, channel_info_key, channel_update_index_key, node_announcement_index_key,
    peer_channel_key, OutPoint,
};
use fiber_core::payment::{PaymentSession, PaymentSessionStatus};
use fiber_core::rpc::{get_payment, list_channels, update_channel, GetPaymentCommandParams, UpdateChannelParams};
use fiber_core::errors::ChannelError;
use fiber_core::store::Store;
use fiber_core::types::{ChannelState, Hash256, PeerId, Pubkey};

fn gen_sha256_hash(seed: u8) -> Hash256 {
    let mut bytes = [0u8; 32];
    for (i, b) in bytes.iter_mut().enumerate() {
        *b = seed.wrapping_mul(31).wrapping_add(i as u8);
    }
    Hash256 { bytes }
}

fn config() -> ChannelConfig {
    ChannelConfig {
        enabled: true,
        tlc_locktime_expiry_delta: 10,
        tlc_min_value: 1,
        tlc_max_value: 10_000,
        tlc_fee_proportional_millionths: 0,
        max_tlc_value_in_flight: 100_000,
        max_tlc_number_in_flight: 10,
    }
}

fn channel(temp: u8, peer: &PeerId, created_at: u64) -> ChannelActorState {
    ChannelActorState::new_inbound(
        OpenChannelOptions::none(),
        Hash256 { bytes: [temp; 32] },
        peer.clone(),
        100,
        200,
        config(),
        1000,
        None,
        created_at,
    )
    .unwrap()
}

#[test]
fn test_invoice_store() {
    let mut store = Store::new();
    let preimage = gen_sha256_hash(1);
    let mut invoice = CkbInvoice::from_preimage(Currency::Fibb, Some(1280), &preimage);
    invoice.fallback_address = Some("address".to_string());
    invoice.final_htlc_timeout = Some(5);
    let hash = *invoice.payment_hash();
    assert_eq!(hash.bytes, ckb_hash::blake2b_256(preimage.bytes));

    store.insert_invoice(invoice.clone(), Some(preimage)).unwrap();
    assert_eq!(store.get_invoice(&hash), Some(&invoice));
    assert_eq!(store.get_invoice_preimage(&hash), Some(preimage));

    let invalid_hash = gen_sha256_hash(2);
    assert_eq!(store.get_invoice_preimage(&invalid_hash), None);
}

#[test]
fn duplicate_invoice() {
    let mut store = Store::new();
    let preimage = gen_sha256_hash(3);
    let first = CkbInvoice::from_preimage(Currency::Fibb, Some(10), &preimage);
    let second = CkbInvoice::from_preimage(Currency::Fibt, Some(20), &preimage);
    let h = *first.payment_hash();
    assert_eq!(store.insert_invoice(first.clone(), None), Ok(()));
    assert_eq!(store.insert_invoice(second.clone(), Some(preimage)), Err(InvoiceError::DuplicatedInvoice));
    assert_eq!(store.insert_invoice(second, None), Err(InvoiceError::DuplicatedInvoice));
    assert_eq!(store.get_invoice(&h), Some(&first));
    assert_eq!(store.get_invoice_preimage(&h), None);
}

#[test]
fn channel_state_round_trip() {
    let mut store = Store::new();
    let p = PeerId { bytes: vec![1, 2, 3] };
    let s = channel(9, &p, 5);
    let id = s.id;
    store.insert_channel_actor_state(s);
    let back = store.get_channel_actor_state(&id).unwrap();
    assert_eq!(back.id, id);
    assert_eq!(back.local_balance, 100);
    assert_eq!(back.remote_balance, 200);
    assert_eq!(back.remote_peer_id, p);
    assert_eq!(store.get_channel_ids_by_peer(&p), vec![id]);
    let states = store.get_channel_states(None);
    assert_eq!(states, vec![(p.clone(), id, ChannelState::AwaitingChannelReady)]);
    assert!(store.get(&peer_channel_key(&p, &id)).is_some());

    store.delete_channel_actor_state(&id);
    assert!(store.get_channel_actor_state(&id).is_none());
    assert!(store.get_channel_states(None).is_empty());
    store.delete_channel_actor_state(&id);
    assert!(store.get_channel_ids_by_peer(&p).is_empty());
}

#[test]
fn channel_states_by_peer() {
    let mut store = Store::new();
    let peer_a = PeerId { bytes: vec![1, 1] };
    let peer_b = PeerId { bytes: vec![2, 2, 2] };
    let a = channel(1, &peer_a, 10);
    let b = channel(2, &peer_b, 20);
    let c = channel(3, &peer_a, 30);
    let (ida, idb, idc) = (a.id, b.id, c.id);
    store.insert_channel_actor_state(a);
    store.insert_channel_actor_state(b);
    store.insert_channel_actor_state(c);
    let mut ids = store.get_channel_ids_by_peer(&peer_a);
    ids.sort_by_key(|h| h.bytes);
    let mut want = vec![ida, idc];
    want.sort_by_key(|h| h.bytes);
    assert_eq!(ids, want);
    let s2 = store.get_channel_states(Some(peer_b.clone()));
    assert_eq!(s2, vec![(peer_b.clone(), idb, ChannelState::AwaitingChannelReady)]);
    assert_eq!(store.get_channel_states(None).len(), 3);

    let listed = list_channels(&store, None);
    let order: Vec<u64> = listed.iter().map(|c| c.created_at).collect();
    assert_eq!(order, vec![30, 20, 10]);
    assert_eq!(listed[0].channel_id, idc);
    assert_eq!(listed[0].local_balance, 100);
    assert_eq!(listed[0].peer_id, peer_a);
    let only_b = list_channels(&store, Some(peer_b));
    assert_eq!(only_b.len(), 1);
    assert_eq!(only_b[0].channel_id, idb);
}

#[test]
fn index_keys_are_big_endian() {
    assert_eq!(
        channel_announcement_index_key(0x0102030405060708, 0x090a0b0c),
        vec![97, 1, 2, 3, 4, 5, 6, 7, 8, 9, 10, 11, 12]
    );
    assert_eq!(channel_update_index_key(258), vec![98, 0, 0, 0, 0, 0, 0, 1, 2]);
    assert_eq!(node_announcement_index_key(1), vec![129, 0, 0, 0, 0, 0, 0, 0, 1]);
    let op = OutPoint { tx_hash: Hash256 { bytes: [0xaa; 32] }, index: 0x01020304 };
    let k = channel_info_key(&op);
    assert_eq!(k.len(), 37);
    assert_eq!(k[0], 96);
    assert_eq!(&k[33..], &[4, 3, 2, 1]);
}

fn pk(b: u8) -> Pubkey {
    Pubkey { bytes: [b; 33] }
}

#[test]
fn graph_records_with_indices() {
    let mut store = Store::new();
    let op = OutPoint { tx_hash: Hash256 { bytes: [1; 32] }, index: 2 };
    let info = ChannelInfo {
        out_point: op,
        node1: pk(1),
        node2: pk(2),
        capacity: 1000,
        fee_rate: 10,
        enabled: true,
        timestamp: 77,
        funding_tx_block_number: 5,
        funding_tx_index: 6,
    };
    store.insert_channel(info);
    assert_eq!(store.get_channels(None), vec![info]);
    assert_eq!(store.get_channels(Some(op)), vec![info]);
    let other = OutPoint { tx_hash: Hash256 { bytes: [1; 32] }, index: 3 };
    assert!(store.get_channels(Some(other)).is_empty());
    assert!(store.get(&channel_update_index_key(77)).is_some());
    assert!(store.get(&channel_announcement_index_key(5, 6)).is_some());

    let node = NodeInfo { node_id: pk(1), announced_addresses: vec![vec![1, 2]], features: 0, timestamp: 9 };
    store.insert_node(node.clone());
    assert_eq!(store.get_nodes(None), vec![&node]);
    assert_eq!(store.get_nodes(Some(pk(1))), vec![&node]);
    assert!(store.get_nodes(Some(pk(2))).is_empty());
    assert!(store.get(&node_announcement_index_key(9)).is_some());
}

#[test]
fn connected_peers() {
    let mut store = Store::new();
    let peer_a = PeerId { bytes: vec![1] };
    let peer_b = PeerId { bytes: vec![2, 2] };
    store.insert_connected_peer(&peer_a, vec![10, 11]);
    store.insert_connected_peer(&peer_b, vec![20]);
    assert_eq!(store.get_connected_peer(Some(peer_a.clone())), vec![(peer_a.clone(), vec![10, 11])]);
    assert_eq!(store.get_connected_peer(None).len(), 2);
    store.remove_connected_peer(&peer_a);
    assert_eq!(store.get_connected_peer(None), vec![(peer_b, vec![20])]);
}

#[test]
fn payment_session_round_trip() {
    let mut store = Store::new();
    let h = gen_sha256_hash(4);
    let mut s = PaymentSession::new(h, 100, Some(5), 1000);
    assert!(s.set_inflight(1001));
    assert!(s.set_failed("no route".to_string(), 1002));
    assert!(!s.set_success(1003));
    store.insert_payment_session(s.clone());
    assert_eq!(store.get_payment_session(&h), Some(&s));
    let r = get_payment(&store, &GetPaymentCommandParams { payment_hash: h }).unwrap();
    assert_eq!(r.status, PaymentSessionStatus::Failed);
    assert_eq!(r.created_at, 1000);
    assert_eq!(r.last_updated_at, 1002);
    assert_eq!(r.failed_error, Some("no route".to_string()));
    assert!(get_payment(&store, &GetPaymentCommandParams { payment_hash: gen_sha256_hash(5) }).is_none());
}

#[test]
fn payment_success_path() {
    let mut s = PaymentSession::new(gen_sha256_hash(6), 1, None, 1);
    assert!(!s.set_success(2));
    assert!(s.set_inflight(3));
    assert!(s.set_success(4));
    assert_eq!(s.status, PaymentSessionStatus::Success);
    assert!(!s.set_failed("late".to_string(), 5));
    assert_eq!(s.failed_error, None);
}

#[test]
fn update_channel_by_params() {
    let p = PeerId { bytes: vec![1] };
    let mut s = channel(1, &p, 1);
    let params = UpdateChannelParams {
        channel_id: s.id,
        enabled: Some(false),
        tlc_locktime_expiry_delta: None,
        tlc_minimum_value: None,
        tlc_maximum_value: Some(500),
        tlc_fee_proportional_millionths: None,
    };
    update_channel(&mut s, &params).unwrap();
    assert_eq!(s.config.tlc_max_value, 500);
    assert!(!s.config.enabled);
    let mut wrong = params.clone();
    wrong.channel_id = Hash256 { bytes: [0; 32] };
    assert_eq!(update_channel(&mut s, &wrong), Err(ChannelError::UnknownChannel));
}

#[test]
fn stale_graph_records_are_ignored_by_the_store() {
    let mut store = Store::new();
    let op = OutPoint { tx_hash: Hash256 { bytes: [1; 32] }, index: 0 };
    let newer = ChannelInfo {
        out_point: op,
        node1: pk(1),
        node2: pk(2),
        capacity: 1000,
        fee_rate: 10,
        enabled: true,
        timestamp: 10,
        funding_tx_block_number: 5,
        funding_tx_index: 6,
    };
    assert!(store.insert_channel(newer));
    let mut older = newer;
    older.timestamp = 10;
    older.capacity = 1;
    assert!(!store.insert_channel(older));
    older.timestamp = 3;
    assert!(!store.insert_channel(older));
    assert_eq!(store.get_channels(Some(op)), vec![newer]);
    assert!(store.get(&channel_update_index_key(3)).is_none());
    let mut newest = newer;
    newest.timestamp = 11;
    assert!(store.insert_channel(newest));
    assert_eq!(store.get_channels(Some(op)), vec![newest]);

    let node = NodeInfo { node_id: pk(1), announced_addresses: vec![], features: 1, timestamp: 9 };
    assert!(store.insert_node(node.clone()));
    let mut stale = node.clone();
    stale.features = 2;
    assert!(!store.insert_node(stale));
    assert_eq!(store.get_nodes(Some(pk(1))), vec![&node]);
}

#[test]
fn scans_come_back_in_key_order() {
    let mut store = Store::new();
    let peer = PeerId { bytes: vec![7] };
    let mut ids = Vec::new();
    for t in [9u8, 3, 5, 1] {
        let s = channel(t, &peer, t as u64);
        ids.push(s.id);
        store.insert_channel_actor_state(s);
    }
    ids.sort_by_key(|h| h.bytes);
    assert_eq!(store.get_channel_ids_by_peer(&peer), ids);
    let states: Vec<Hash256> = store.get_channel_states(None).into_iter().map(|(_, id, _)| id).collect();
    assert_eq!(states, ids);
    store.insert_connected_peer(&PeerId { bytes: vec![3] }, vec![1]);
    store.insert_connected_peer(&PeerId { bytes: vec![1, 5] }, vec![2]);
    store.insert_connected_peer(&PeerId { bytes: vec![2] }, vec![3]);
    let peers: Vec<Vec<u8>> = store.get_connected_peer(None).into_iter().map(|(p, _)| p.bytes).collect();
    assert_eq!(peers, vec![vec![1, 5], vec![2], vec![3]]);
}
