use fiber_core::channel::{
    OpenChannelOptions,ChannelActorState, ChannelConfig};
use fiber_core::errors::ChannelError;
use fiber_core::network::ChannelRegistry;
use fiber_core::store::Store;
use fiber_core::types::{ChannelState, HashAlgorithm, Hash256, PeerId};

fn ready(temp: u8) -> ChannelActorState {
    let cfg = ChannelConfig {
        enabled: true,
        tlc_locktime_expiry_delta: 0,
        tlc_min_value: 1,
        tlc_max_value: 1000,
        tlc_fee_proportional_millionths: 0,
        max_tlc_value_in_flight: 1000,
        max_tlc_number_in_flight: 5,
    };
    let mut s = ChannelActorState::new_inbound(
        OpenChannelOptions::none(),
        Hash256 { bytes: [temp; 32] },
        PeerId { bytes: vec![temp] },
        100,
        100,
        cfg,
        1000,
        None,
        temp as u64,
    )
    .unwrap();
    s.on_channel_ready().unwrap();
    s
}

#[test]
fn registry_routes_commands_by_channel_id() {
    let mut reg = ChannelRegistry::new();
    let a = ready(1);
    let id = a.id;
    reg.open(a).unwrap();
    assert_eq!(reg.open(ready(1)), Err(ChannelError::InvalidParameter));
    let mut c = reg.take(&id).unwrap();
    assert_eq!(reg.take(&id).err(), Some(ChannelError::UnknownChannel));
    c.add_tlc(10, Hash256 { bytes: [0; 32] }, 5, HashAlgorithm::CkbHash, vec![], None, 0).unwrap();
    reg.open(c).unwrap();
    assert_eq!(reg.channels.len(), 1);
    assert_eq!(reg.channels[0].local_balance, 90);
    assert_eq!(reg.find(&Hash256 { bytes: [9; 32] }), None);
}

#[test]
fn closed_channels_are_reaped_and_stored() {
    let mut reg = ChannelRegistry::new();
    let mut store = Store::new();
    let mut a = ready(1);
    let b = ready(2);
    let ida = a.id;
    let idb = b.id;
    a.shutdown(vec![0x51], 1000, true).unwrap();
    reg.open(a).unwrap();
    reg.open(b).unwrap();
    assert_eq!(reg.reap_closed(&mut store), 1);
    assert_eq!(reg.channels.len(), 1);
    assert_eq!(reg.channels[0].id, idb);
    let stored = store.get_channel_actor_state(&ida).unwrap();
    assert_eq!(stored.state, ChannelState::Closed);
    assert!(store.get_channel_actor_state(&idb).is_none());
}
