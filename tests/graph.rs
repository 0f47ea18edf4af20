use fiber_core::errors::RouteError;
use fiber_core::graph::{forwarding_fee, ChannelInfo, NetworkGraph, NodeInfo};
use fiber_core::keys::OutPoint;
use fiber_core::types::{Hash256, Pubkey};

fn pk(b: u8) -> Pubkey {
    Pubkey { bytes: [b; 33] }
}

fn edge(id: u8, a: u8, b: u8, capacity: u128, fee_rate: u64) -> ChannelInfo {
    ChannelInfo {
        out_point: OutPoint { tx_hash: Hash256 { bytes: [id; 32] }, index: 0 },
        node1: pk(a),
        node2: pk(b),
        capacity,
        fee_rate,
        enabled: true,
        timestamp: 1,
        funding_tx_block_number: 1,
        funding_tx_index: 0,
    }
}

// A = 1, B = 2, C = 3, D = 4. Via B the fee is 10% (10 on 100), via D 5%.
fn two_paths() -> NetworkGraph {
    let mut g = NetworkGraph::new();
    g.process_channel_update(edge(1, 1, 2, 1000, 0));
    g.process_channel_update(edge(2, 2, 3, 500, 100_000));
    g.process_channel_update(edge(3, 1, 4, 50, 0));
    g.process_channel_update(edge(4, 4, 3, 50, 50_000));
    g
}

#[test]
fn route_selection() {
    let g = two_paths();
    let r = g.find_route(&pk(1), &pk(3), 100, 20).unwrap();
    assert_eq!(r.len(), 2);
    assert_eq!(r[0].to, pk(2));
    assert_eq!(r[1].fee, 10);
    assert_eq!(r[0].amount, 110);
    assert_eq!(r[1].amount, 100);

    let r = g.find_route(&pk(1), &pk(3), 30, 20).unwrap();
    assert_eq!(r[0].to, pk(4));
    assert_eq!(r[1].fee, 1);
    assert_eq!(r[0].amount, 31);
}

#[test]
fn route_respects_max_fee() {
    let g = two_paths();
    assert_eq!(g.find_route(&pk(1), &pk(3), 100, 9), Err(RouteError::FeeExceedsMax));
    let r = g.find_route(&pk(1), &pk(3), 100, 10).unwrap();
    assert!(r[0].amount - 100 <= 10);
    for h in &r {
        let c = g.channels.iter().find(|c| c.out_point == h.channel_outpoint).unwrap();
        assert!(c.capacity >= h.amount);
    }
}

#[test]
fn route_errors() {
    let g = two_paths();
    assert_eq!(g.find_route(&pk(1), &pk(3), 0, 20), Err(RouteError::InvalidParameter));
    assert_eq!(g.find_route(&pk(1), &pk(1), 5, 20), Err(RouteError::InvalidParameter));
    assert_eq!(g.find_route(&pk(1), &pk(9), 5, 20), Err(RouteError::NoRoute));
    assert_eq!(g.find_route(&pk(1), &pk(3), 600, 1000), Err(RouteError::NoRoute));
    let mut h = two_paths();
    let mut off = edge(2, 2, 3, 500, 100_000);
    off.enabled = false;
    off.timestamp = 2;
    assert!(h.process_channel_update(off));
    assert_eq!(h.find_route(&pk(1), &pk(3), 100, 20), Err(RouteError::NoRoute));
}

#[test]
fn direct_route_has_no_fee() {
    let g = two_paths();
    let r = g.find_route(&pk(2), &pk(3), 100, 0).unwrap();
    assert_eq!(r.len(), 1);
    assert_eq!(r[0].fee, 0);
    assert_eq!(r[0].from, pk(2));
}

#[test]
fn stale_updates_are_dropped() {
    let mut g = NetworkGraph::new();
    let mut e = edge(1, 1, 2, 100, 0);
    e.timestamp = 10;
    assert!(g.process_channel_update(e));
    let mut older = e;
    older.capacity = 5;
    older.timestamp = 9;
    assert!(!g.process_channel_update(older));
    let mut same = e;
    same.capacity = 6;
    assert!(!g.process_channel_update(same));
    assert_eq!(g.channels, vec![e]);
    let mut newer = e;
    newer.capacity = 7;
    newer.timestamp = 11;
    assert!(g.process_channel_update(newer));
    assert_eq!(g.channels, vec![newer]);

    let n = NodeInfo { node_id: pk(1), announced_addresses: vec![], features: 0, timestamp: 5 };
    assert!(g.process_node_announcement(n.clone()));
    let mut old = n.clone();
    old.features = 3;
    assert!(!g.process_node_announcement(old));
    assert_eq!(g.nodes, vec![n]);
}

#[test]
fn fee_formula() {
    assert_eq!(forwarding_fee(100_000, 100), Some(10));
    assert_eq!(forwarding_fee(50_000, 30), Some(1));
    assert_eq!(forwarding_fee(1, 999_999), Some(0));
    assert_eq!(forwarding_fee(u64::MAX, u128::MAX), None);
}
