use nanonode::channel::{AcceptResult, ChannelDirection, ChannelMode, EndpointV6};
use nanonode::hashes::PublicKey;
use nanonode::hashes::Hash256;
use nanonode::network::{NetworkConfig, NetworkFilter, NetworkInfo};

fn endpoint(hi: u64, lo: u64, port: u16) -> EndpointV6 {
    EndpointV6 {
        ip_hi: hi,
        ip_lo: lo,
        port,
    }
}

fn add_realtime_channels(net: &mut NetworkInfo, count: u64) {
    for i in 0..count {
        let peer = endpoint(100 + i, i, 7075);
        let channel = net.add(endpoint(1, 1, 7075), peer, ChannelDirection::Inbound, 5);
        assert!(net.upgrade_to_realtime_connection(channel.channel_id, PublicKey::from(500 + i)));
    }
}

#[test]
fn newly_added_channel_is_not_a_realtime_channel() {
    let mut net = NetworkInfo::new(7075);
    net.add(
        endpoint(1, 1, 7075),
        endpoint(2, 2, 7075),
        ChannelDirection::Inbound,
        5,
    );
    assert_eq!(net.list_realtime(0).len(), 0);
}

#[test]
fn upgrade_channel_to_realtime_channel() {
    let mut net = NetworkInfo::new(7075);
    let channel = net.add(
        endpoint(1, 1, 7075),
        endpoint(2, 2, 7075),
        ChannelDirection::Inbound,
        5,
    );
    assert!(net.upgrade_to_realtime_connection(channel.channel_id, PublicKey::from(456)));
    assert_eq!(net.list_realtime(0).len(), 1);
}

#[test]
fn random_fill_peering_endpoints_empty() {
    let net = NetworkInfo::new(7075);
    let endpoints = net.random_peering_endpoints(3);
    assert_eq!(endpoints.len(), 3);
    for e in &endpoints {
        assert!(e.is_unspecified());
    }
}

#[test]
fn gossip_fanout_of_forty_nine_channels_is_seven() {
    let mut net = NetworkInfo::new(7075);
    add_realtime_channels(&mut net, 49);
    assert_eq!(net.fanout(), 7);
    let sample = net.random_fanout_realtime();
    assert_eq!(sample.len(), 7);
    for i in 0..sample.len() {
        assert_eq!(sample[i].mode, ChannelMode::Realtime);
        for j in 0..i {
            assert_ne!(sample[i].channel_id, sample[j].channel_id);
        }
    }
}

#[test]
fn fanout_is_the_square_root_ceiling() {
    let mut net = NetworkInfo::new(7075);
    assert_eq!(net.fanout(), 0);
    add_realtime_channels(&mut net, 2);
    assert_eq!(net.fanout(), 2);
    add_realtime_channels_more(&mut net, 2, 2);
    assert_eq!(net.fanout(), 2);
    add_realtime_channels_more(&mut net, 4, 1);
    assert_eq!(net.fanout(), 3);
}

fn add_realtime_channels_more(net: &mut NetworkInfo, offset: u64, count: u64) {
    for i in 0..count {
        let peer = endpoint(200 + offset + i, i, 7075);
        let channel = net.add(endpoint(1, 1, 7075), peer, ChannelDirection::Inbound, 5);
        assert!(
            net.upgrade_to_realtime_connection(channel.channel_id, PublicKey::from(900 + offset + i))
        );
    }
}

#[test]
fn inbound_connections_over_the_ip_cap_are_rejected() {
    let mut net = NetworkInfo::new(7075);
    let config = NetworkConfig::dev_default();
    // five alive connections from one address reach the cap
    for i in 0..5 {
        net.add(
            endpoint(1, 1, 7075),
            endpoint(7, 9, 8000 + i),
            ChannelDirection::Inbound,
            5,
        );
    }
    let result = net.can_add_connection(
        &config,
        &endpoint(7, 9, 9000),
        ChannelDirection::Inbound,
        ChannelMode::Realtime,
        10,
    );
    assert_eq!(result, AcceptResult::Rejected);
    // a different address is still welcome
    let other = net.can_add_connection(
        &config,
        &endpoint(8, 9, 9000),
        ChannelDirection::Inbound,
        ChannelMode::Realtime,
        10,
    );
    assert_eq!(other, AcceptResult::Accepted);
}

#[test]
fn excluded_peers_are_rejected() {
    let mut net = NetworkInfo::new(7075);
    let config = NetworkConfig::dev_default();
    let peer = endpoint(3, 4, 7075);
    net.excluded_peers.peer_misbehaved(&peer, 100);
    let result = net.can_add_connection(
        &config,
        &peer,
        ChannelDirection::Inbound,
        ChannelMode::Realtime,
        200,
    );
    assert_eq!(result, AcceptResult::Rejected);
    // the ban expires with its window
    let later = net.can_add_connection(
        &config,
        &peer,
        ChannelDirection::Inbound,
        ChannelMode::Realtime,
        100 + 3600,
    );
    assert_eq!(later, AcceptResult::Accepted);
}

#[test]
fn outbound_double_connect_is_rejected() {
    let mut net = NetworkInfo::new(7075);
    let config = NetworkConfig::dev_default();
    let peer = endpoint(5, 6, 7075);
    net.add(endpoint(1, 1, 7075), peer, ChannelDirection::Outbound, 5);
    let result = net.can_add_connection(
        &config,
        &peer,
        ChannelDirection::Outbound,
        ChannelMode::Realtime,
        10,
    );
    assert_eq!(result, AcceptResult::Rejected);
}

#[test]
fn outbound_to_an_invalid_address_is_invalid() {
    let net = NetworkInfo::new(7075);
    let config = NetworkConfig::dev_default();
    let result = net.can_add_connection(
        &config,
        &EndpointV6::unspecified(),
        ChannelDirection::Outbound,
        ChannelMode::Realtime,
        10,
    );
    assert_eq!(result, AcceptResult::Invalid);
}

#[test]
fn purge_drops_stale_channels() {
    let mut net = NetworkInfo::new(7075);
    let stale = net.add(
        endpoint(1, 1, 7075),
        endpoint(2, 2, 7075),
        ChannelDirection::Inbound,
        5,
    );
    let fresh = net.add(
        endpoint(1, 1, 7075),
        endpoint(3, 3, 7075),
        ChannelDirection::Inbound,
        50,
    );
    let removed = net.purge(10);
    assert_eq!(removed, vec![stale.channel_id]);
    assert!(net.get(stale.channel_id).is_none());
    assert!(net.get(fresh.channel_id).is_some());
}

#[test]
fn keepalive_list_returns_quiet_realtime_channels() {
    let mut net = NetworkInfo::new(7075);
    let quiet = net.add(
        endpoint(1, 1, 7075),
        endpoint(2, 2, 7075),
        ChannelDirection::Inbound,
        5,
    );
    assert!(net.upgrade_to_realtime_connection(quiet.channel_id, PublicKey::from(1)));
    let chatty = net.add(
        endpoint(1, 1, 7075),
        endpoint(3, 3, 7075),
        ChannelDirection::Inbound,
        100,
    );
    assert!(net.upgrade_to_realtime_connection(chatty.channel_id, PublicKey::from(2)));
    let due = net.keepalive_list(50);
    assert_eq!(due, vec![quiet.channel_id]);
}

#[test]
fn duplicate_node_id_from_same_subnet_is_refused() {
    let mut net = NetworkInfo::new(7075);
    let first = net.add(
        endpoint(9, 1, 7075),
        endpoint(9, 2, 7075),
        ChannelDirection::Inbound,
        5,
    );
    assert!(net.upgrade_to_realtime_connection(first.channel_id, PublicKey::from(77)));
    // same subnetwork, same node id
    let second = net.add(
        endpoint(9, 1, 7076),
        endpoint(9, 3, 7076),
        ChannelDirection::Inbound,
        5,
    );
    assert!(!net.upgrade_to_realtime_connection(second.channel_id, PublicKey::from(77)));
}

#[test]
fn duplicate_publish_filter_remembers_recent_digests() {
    let mut filter = NetworkFilter::new(2);
    assert!(!filter.apply(Hash256::from_u64(1)));
    assert!(filter.apply(Hash256::from_u64(1)));
    assert!(!filter.apply(Hash256::from_u64(2)));
    // a third digest evicts the oldest
    assert!(!filter.apply(Hash256::from_u64(3)));
    assert!(!filter.apply(Hash256::from_u64(1)));
    filter.clear();
    assert!(!filter.apply(Hash256::from_u64(3)));
}

#[test]
fn excluded_outbound_peer_is_rejected_before_validity() {
    let mut net = NetworkInfo::new(7075);
    let config = NetworkConfig::dev_default();
    // an excluded peer whose address is also unusable: the ban answers first
    let bad = endpoint(0, 0, 0);
    net.excluded_peers.perma_ban(&bad);
    let result = net.can_add_connection(
        &config,
        &bad,
        ChannelDirection::Outbound,
        ChannelMode::Realtime,
        10,
    );
    assert_eq!(result, AcceptResult::Rejected);
}

#[test]
fn bootstrap_peer_picks_the_least_recently_asked() {
    let mut net = NetworkInfo::new(7075);
    let a = net.add(endpoint(20, 1, 7075), endpoint(21, 1, 7075), ChannelDirection::Inbound, 5);
    assert!(net.upgrade_to_realtime_connection(a.channel_id, PublicKey::from(31)));
    let b = net.add(endpoint(20, 2, 7075), endpoint(22, 1, 7075), ChannelDirection::Inbound, 5);
    assert!(net.upgrade_to_realtime_connection(b.channel_id, PublicKey::from(32)));
    // only inbound channels: no peering address yet, so no peer to offer
    assert!(net.bootstrap_peer(100).is_unspecified());
    // give both a peering address; both start never-asked
    net.channels[0].peering_addr = Some(endpoint(21, 1, 7100));
    net.channels[1].peering_addr = Some(endpoint(22, 1, 7200));
    let first = net.bootstrap_peer(100);
    assert_eq!(first, endpoint(21, 1, 7100));
    // the stamped channel now loses to the other
    let second = net.bootstrap_peer(200);
    assert_eq!(second, endpoint(22, 1, 7200));
    let third = net.bootstrap_peer(300);
    assert_eq!(third, endpoint(21, 1, 7100));
}
