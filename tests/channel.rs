use fiber_core::channel::{
    OpenChannelOptions,
    derive_channel_id, ChannelActorState, ChannelConfig, RemoveTlcReason, MIN_COMMITMENT_FEE_RATE,
};
use fiber_core::errors::ChannelError;
use fiber_core::hashing::hash_with_algorithm;
use fiber_core::types::{ChannelState, HashAlgorithm, Hash256, PeerId};
use sha2::Digest;

fn config() -> ChannelConfig {
    ChannelConfig {
        enabled: true,
        tlc_locktime_expiry_delta: 10,
        tlc_min_value: 1,
        tlc_max_value: 10_000,
        tlc_fee_proportional_millionths: 0,
        max_tlc_value_in_flight: 100_000,
        max_tlc_number_in_flight: 10,
    }
}

fn peer(b: u8) -> PeerId {
    PeerId { bytes: vec![b; 34] }
}

fn ready_channel(local: u128, remote: u128) -> ChannelActorState {
    let mut s = ChannelActorState::new_inbound(
        OpenChannelOptions::none(),
        Hash256 { bytes: [7u8; 32] },
        peer(1),
        local,
        remote,
        config(),
        MIN_COMMITMENT_FEE_RATE,
        None,
        42,
    )
    .unwrap();
    s.on_channel_ready().unwrap();
    s
}

fn sha256(b: &[u8; 32]) -> Hash256 {
    Hash256 { bytes: sha2::Sha256::digest(b).into() }
}

#[test]
fn open_accept_handshake() {
    let temp = Hash256 { bytes: [3u8; 32] };
    let mut a = ChannelActorState::new_outbound(
        OpenChannelOptions::none(),
        temp,
        peer(2),
        1_000_000,
        config(),
        MIN_COMMITMENT_FEE_RATE,
        None,
        1,
    )
    .unwrap();
    assert_eq!(a.state, ChannelState::NegotiatingFunding);
    let b = ChannelActorState::new_inbound(
        OpenChannelOptions::none(),
        temp,
        peer(1),
        500_000,
        1_000_000,
        config(),
        MIN_COMMITMENT_FEE_RATE,
        None,
        2,
    )
    .unwrap();
    a.on_accepted(500_000).unwrap();
    assert_eq!(a.id, b.id);
    assert_eq!(a.local_balance, 1_000_000);
    assert_eq!(b.local_balance, 500_000);
    assert_eq!(a.remote_balance, 500_000);
    assert_eq!(b.remote_balance, 1_000_000);
    assert_eq!(a.state, ChannelState::AwaitingChannelReady);
    assert_eq!(b.state, ChannelState::AwaitingChannelReady);
    assert_eq!(a.capacity, 1_500_000);
}

#[test]
fn derived_channel_id_is_ckb_hash_of_temporary_id() {
    let temp = Hash256 { bytes: [3u8; 32] };
    let id = derive_channel_id(&temp);
    assert_eq!(id.bytes, ckb_hash::blake2b_256(temp.bytes));
    assert_ne!(id, temp);
}

#[test]
fn hash_algorithms_match_their_crates() {
    let data = Hash256 { bytes: [9u8; 32] };
    assert_eq!(hash_with_algorithm(HashAlgorithm::Sha256, &data), sha256(&data.bytes));
    assert_eq!(
        hash_with_algorithm(HashAlgorithm::CkbHash, &data).bytes,
        ckb_hash::blake2b_256(data.bytes)
    );
    assert_ne!(hash_with_algorithm(HashAlgorithm::Sha256, &data), data);
}

#[test]
fn open_rejects_bad_parameters() {
    let temp = Hash256 { bytes: [3u8; 32] };
    let r = ChannelActorState::new_outbound(
        OpenChannelOptions::none(),temp, peer(2), 0, config(), 1000, None, 1);
    assert_eq!(r.err(), Some(ChannelError::InvalidParameter));
    let mut bad = config();
    bad.tlc_min_value = 20_000;
    let r = ChannelActorState::new_outbound(
        OpenChannelOptions::none(),temp, peer(2), 10, bad, 1000, None, 1);
    assert_eq!(r.err(), Some(ChannelError::InvalidParameter));
    let r = ChannelActorState::new_outbound(
        OpenChannelOptions::none(),temp, peer(2), 10, config(), 999, None, 1);
    assert_eq!(r.err(), Some(ChannelError::InvalidParameter));
}

#[test]
fn single_hop_payment() {
    let mut a = ready_channel(1000, 1000);
    let preimage = Hash256 { bytes: [5u8; 32] };
    let h = sha256(&preimage.bytes);
    let id = a.add_tlc(100, h, 100, HashAlgorithm::Sha256, vec![], None, 0).unwrap();
    assert_eq!(id, 0);
    assert_eq!(a.local_balance, 900);
    assert_eq!(a.offered_tlcs.len(), 1);
    let tlc = a
        .remove_tlc(id, RemoveTlcReason::Fulfill { payment_preimage: preimage })
        .unwrap();
    assert_eq!(tlc.amount, 100);
    assert_eq!(a.local_balance, 900);
    assert_eq!(a.remote_balance, 1100);
    assert!(a.offered_tlcs.is_empty());
    assert_eq!(a.get_offered_tlc_balance(), 0);
}

#[test]
fn fulfill_with_ckb_hash() {
    let mut a = ready_channel(1000, 1000);
    let preimage = Hash256 { bytes: [6u8; 32] };
    let h = Hash256 { bytes: ckb_hash::blake2b_256(preimage.bytes) };
    let id = a.add_tlc(10, h, 100, HashAlgorithm::CkbHash, vec![1, 2], None, 0).unwrap();
    a.remove_tlc(id, RemoveTlcReason::Fulfill { payment_preimage: preimage }).unwrap();
    assert_eq!(a.remote_balance, 1010);
}

#[test]
fn payment_fail_returns_balance() {
    let mut a = ready_channel(1000, 1000);
    let id = a
        .add_tlc(100, Hash256 { bytes: [1u8; 32] }, 100, HashAlgorithm::Sha256, vec![], None, 0)
        .unwrap();
    let tlc = a.remove_tlc(id, RemoveTlcReason::Fail { error_code: 0x2002 }).unwrap();
    assert_eq!(tlc.id, id);
    assert_eq!(a.local_balance, 1000);
    assert_eq!(a.remote_balance, 1000);
}

#[test]
fn fulfill_with_wrong_preimage_is_rejected() {
    let mut a = ready_channel(1000, 1000);
    let h = sha256(&[5u8; 32]);
    let id = a.add_tlc(100, h, 100, HashAlgorithm::Sha256, vec![], None, 0).unwrap();
    let r = a.remove_tlc(id, RemoveTlcReason::Fulfill { payment_preimage: Hash256 { bytes: [4u8; 32] } });
    assert_eq!(r.err(), Some(ChannelError::InvalidParameter));
    assert_eq!(a.offered_tlcs.len(), 1);
    assert_eq!(a.local_balance, 900);
}

#[test]
fn remove_with_digest_checks_the_digest() {
    let mut a = ready_channel(1000, 1000);
    let h = Hash256 { bytes: [8u8; 32] };
    let id = a.add_tlc(50, h, 100, HashAlgorithm::Sha256, vec![], None, 0).unwrap();
    let reason = RemoveTlcReason::Fulfill { payment_preimage: Hash256 { bytes: [0u8; 32] } };
    let r = a.remove_tlc_with_digest(id, reason, &Hash256 { bytes: [9u8; 32] });
    assert_eq!(r.err(), Some(ChannelError::InvalidParameter));
    let r = a.remove_tlc_with_digest(id, reason, &h);
    assert!(r.is_ok());
    assert_eq!(a.remote_balance, 1050);
}

#[test]
fn unknown_tlc_is_rejected() {
    let mut a = ready_channel(1000, 1000);
    let r = a.remove_tlc(3, RemoveTlcReason::Fail { error_code: 1 });
    assert_eq!(r.err(), Some(ChannelError::UnknownTlc));
}

#[test]
fn invariant_guard_insufficient_balance() {
    let mut a = ready_channel(1000, 1000);
    let r = a.add_tlc(1001, Hash256 { bytes: [1u8; 32] }, 100, HashAlgorithm::Sha256, vec![], None, 0);
    assert_eq!(r, Err(ChannelError::InsufficientBalance));
    assert_eq!(a.local_balance, 1000);
    assert_eq!(a.remote_balance, 1000);
    assert!(a.offered_tlcs.is_empty());
    assert_eq!(a.next_offered_tlc_id, 0);
}

#[test]
fn add_tlc_errors() {
    let mut a = ready_channel(1000, 1000);
    let h = Hash256 { bytes: [1u8; 32] };
    assert_eq!(
        a.add_tlc(0, h, 100, HashAlgorithm::Sha256, vec![], None, 0),
        Err(ChannelError::TlcValueOutOfRange)
    );
    assert_eq!(
        a.add_tlc(10_001, h, 100, HashAlgorithm::Sha256, vec![], None, 0),
        Err(ChannelError::TlcValueOutOfRange)
    );
    assert_eq!(
        a.add_tlc(10, h, 15, HashAlgorithm::Sha256, vec![], None, 10),
        Err(ChannelError::ExpiryTooSoon)
    );
    assert_eq!(
        a.add_tlc(10, h, 5, HashAlgorithm::Sha256, vec![], None, 10),
        Err(ChannelError::ExpiryTooSoon)
    );
    for i in 0..10u64 {
        assert_eq!(a.add_tlc(1, h, 100, HashAlgorithm::Sha256, vec![], None, 0), Ok(i));
    }
    assert_eq!(
        a.add_tlc(1, h, 100, HashAlgorithm::Sha256, vec![], None, 0),
        Err(ChannelError::TooManyInflightTlcs)
    );
    let mut b = ChannelActorState::new_outbound(
        OpenChannelOptions::none(),
        Hash256 { bytes: [2u8; 32] },
        peer(2),
        100,
        config(),
        1000,
        None,
        1,
    )
    .unwrap();
    assert_eq!(
        b.add_tlc(1, h, 100, HashAlgorithm::Sha256, vec![], None, 0),
        Err(ChannelError::IllegalState)
    );
}

#[test]
fn value_in_flight_is_bounded() {
    let mut cfg = config();
    cfg.max_tlc_value_in_flight = 10_000;
    let mut a = ChannelActorState::new_inbound(
        OpenChannelOptions::none(),
        Hash256 { bytes: [7u8; 32] },
        peer(1),
        50_000,
        0,
        cfg,
        1000,
        None,
        1,
    )
    .unwrap();
    a.on_channel_ready().unwrap();
    let h = Hash256 { bytes: [1u8; 32] };
    a.add_tlc(6000, h, 100, HashAlgorithm::Sha256, vec![], None, 0).unwrap();
    assert_eq!(
        a.add_tlc(5000, h, 100, HashAlgorithm::Sha256, vec![], None, 0),
        Err(ChannelError::TooManyInflightTlcs)
    );
    assert_eq!(a.add_tlc(4000, h, 100, HashAlgorithm::Sha256, vec![], None, 0), Ok(1));
}

#[test]
fn tlc_ids_are_unique() {
    let mut a = ready_channel(1000, 1000);
    let h = Hash256 { bytes: [1u8; 32] };
    let first = a.add_tlc(10, h, 100, HashAlgorithm::Sha256, vec![], None, 0).unwrap();
    let second = a.add_tlc(10, h, 100, HashAlgorithm::Sha256, vec![], None, 0).unwrap();
    a.remove_tlc(first, RemoveTlcReason::Fail { error_code: 1 }).unwrap();
    let third = a.add_tlc(10, h, 100, HashAlgorithm::Sha256, vec![], None, 0).unwrap();
    assert_eq!((first, second, third), (0, 1, 2));
    assert_eq!(a.offered_tlcs.iter().filter(|t| t.id == third).count(), 1);
}

#[test]
fn balances_stay_conserved() {
    let mut a = ready_channel(1000, 1000);
    let h = Hash256 { bytes: [1u8; 32] };
    let t = a.add_tlc(300, h, 100, HashAlgorithm::Sha256, vec![], None, 0).unwrap();
    a.add_tlc(200, h, 100, HashAlgorithm::Sha256, vec![], None, 0).unwrap();
    let total = a.local_balance + a.remote_balance + a.offered_tlc_balance + a.received_tlc_balance;
    assert_eq!(total, a.capacity);
    a.remove_tlc(t, RemoveTlcReason::Fail { error_code: 1 }).unwrap();
    let total = a.local_balance + a.remote_balance + a.offered_tlc_balance + a.received_tlc_balance;
    assert_eq!(total, 2000);
}

#[test]
fn commitment_numbers_advance_together() {
    let mut a = ready_channel(1000, 1000);
    a.commitment_signed().unwrap();
    a.commitment_signed().unwrap();
    assert_eq!(a.commitment_number_local, 2);
    assert_eq!(a.commitment_number_remote, 2);
    let mut b = ChannelActorState::new_outbound(
        OpenChannelOptions::none(),
        Hash256 { bytes: [2u8; 32] },
        peer(2),
        100,
        config(),
        1000,
        None,
        1,
    )
    .unwrap();
    assert_eq!(b.commitment_signed(), Err(ChannelError::IllegalState));
}

#[test]
fn shutdown_paths() {
    let mut a = ready_channel(1000, 1000);
    let h = Hash256 { bytes: [1u8; 32] };
    let t = a.add_tlc(10, h, 100, HashAlgorithm::Sha256, vec![], None, 0).unwrap();
    a.shutdown(vec![0x51], 1000, false).unwrap();
    assert_eq!(a.close_script, Some(vec![0x51]));
    assert_eq!(a.close_fee_rate, Some(1000));
    assert_eq!(a.state, ChannelState::ShuttingDown);
    assert!(!a.close_if_settled(true));
    a.remove_tlc(t, RemoveTlcReason::Fail { error_code: 1 }).unwrap();
    assert!(!a.close_if_settled(false));
    assert_eq!(a.state, ChannelState::ShuttingDown);
    assert!(a.close_if_settled(true));
    assert_eq!(a.state, ChannelState::Closed);
    assert_eq!(a.shutdown(vec![0x51], 1000, true), Err(ChannelError::IllegalState));

    let mut b = ready_channel(10, 10);
    b.shutdown(vec![0x51], 1000, true).unwrap();
    assert_eq!(b.state, ChannelState::Closed);
    let mut c = ChannelActorState::new_outbound(
        OpenChannelOptions::none(),h, peer(2), 100, config(), 1000, None, 1).unwrap();
    assert_eq!(c.shutdown(vec![0x51], 1000, false), Err(ChannelError::IllegalState));
    assert_eq!(c.on_channel_ready(), Err(ChannelError::IllegalState));
}

#[test]
fn update_policy() {
    let mut a = ready_channel(1000, 1000);
    let h = Hash256 { bytes: [1u8; 32] };
    a.add_tlc(500, h, 100, HashAlgorithm::Sha256, vec![], None, 0).unwrap();
    assert_eq!(a.update(None, None, Some(600), None, None), Err(ChannelError::InvalidParameter));
    assert_eq!(a.config.tlc_min_value, 1);
    let ann = a.update(Some(false), Some(20), Some(100), Some(900), Some(5)).unwrap();
    assert_eq!(ann.timestamp, 1);
    assert_eq!(ann.channel_id, a.id);
    assert_eq!(ann.tlc_max_value, 900);
    assert!(!ann.enabled);
    assert_eq!(a.update(None, None, None, None, Some(5)).unwrap().timestamp, 2);
    assert!(!a.config.enabled);
    assert_eq!(a.config.tlc_locktime_expiry_delta, 20);
    assert_eq!(a.config.tlc_min_value, 100);
    assert_eq!(a.config.tlc_max_value, 900);
    assert_eq!(a.config.tlc_fee_proportional_millionths, 5);
}

#[test]
fn receiver_settles_a_received_tlc() {
    let mut b = ready_channel(1000, 1000);
    let preimage = Hash256 { bytes: [5u8; 32] };
    let h = sha256(&preimage.bytes);
    b.receive_tlc(0, 100, h, 100, HashAlgorithm::Sha256, vec![], None, 0).unwrap();
    assert_eq!(b.remote_balance, 900);
    assert_eq!(b.get_received_tlc_balance(), 100);
    let t = b
        .settle_received_tlc(0, RemoveTlcReason::Fulfill { payment_preimage: preimage })
        .unwrap();
    assert_eq!(t.amount, 100);
    assert_eq!(b.local_balance, 1100);
    assert_eq!(b.remote_balance, 900);
    assert!(b.received_tlcs.is_empty());
}

#[test]
fn receiver_fails_a_received_tlc() {
    let mut b = ready_channel(1000, 1000);
    let h = Hash256 { bytes: [2u8; 32] };
    assert_eq!(
        b.receive_tlc(1, 100, h, 100, HashAlgorithm::Sha256, vec![], None, 0),
        Err(ChannelError::InvalidParameter)
    );
    assert_eq!(
        b.receive_tlc(0, 1001, h, 100, HashAlgorithm::Sha256, vec![], None, 0),
        Err(ChannelError::InsufficientBalance)
    );
    b.receive_tlc(0, 100, h, 100, HashAlgorithm::Sha256, vec![], None, 0).unwrap();
    b.settle_received_tlc(0, RemoveTlcReason::Fail { error_code: 1 }).unwrap();
    assert_eq!((b.local_balance, b.remote_balance), (1000, 1000));
    assert_eq!(
        b.settle_received_tlc(0, RemoveTlcReason::Fail { error_code: 1 }).err(),
        Some(ChannelError::UnknownTlc)
    );
    assert_eq!(b.next_received_tlc_id, 1);
}
