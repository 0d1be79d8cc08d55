use peerlink::ip::{
    connection_targets, is_local_address, is_my_ip, socket_addr_bytes, u16_decimal, IpAddress,
};
use peerlink::registry::PeerRegistry;
use peerlink::udp::{
    broadcast_targets, directed_broadcast_address, handle_datagram, is_online_message,
    online_message, subnet_broadcast_address,
};
use peerlink::{BROADCAST_PORT, SESSION_PORT};

fn ip(o0: u8, o1: u8, o2: u8, o3: u8) -> IpAddress {
    IpAddress { o0, o1, o2, o3 }
}

#[test]
fn fixed_ports() {
    assert_eq!(BROADCAST_PORT, 5000);
    assert_eq!(SESSION_PORT, 7878);
}

#[test]
fn oracle_reports_every_bound_address_as_local() {
    let local = vec![ip(192, 168, 1, 7), ip(10, 0, 0, 3), ip(127, 0, 0, 1)];
    for a in &local {
        assert!(is_local_address(a, &local));
        assert!(is_my_ip(a, &Some(local.clone())));
    }
    let foreign = ip(192, 168, 1, 8);
    assert!(!is_local_address(&foreign, &local));
    assert!(!is_my_ip(&foreign, &Some(local.clone())));
}

#[test]
fn oracle_defaults_to_not_mine_when_enumeration_fails() {
    assert!(!is_my_ip(&ip(192, 168, 1, 7), &None));
}

#[test]
fn announcement_payload_is_online() {
    let msg = online_message();
    assert_eq!(msg, b"ONLINE".to_vec());
    assert!(is_online_message(&msg));
    assert!(!is_online_message(&b"OFFLINE".to_vec()));
    assert!(!is_online_message(&b"ONLINE!".to_vec()));
    assert!(!is_online_message(&Vec::new()));
}

#[test]
fn repeated_announcements_insert_once() {
    let mut registry = PeerRegistry::new();
    let local = Some(vec![ip(192, 168, 1, 7)]);
    let peer = ip(192, 168, 1, 9);
    for _ in 0..5 {
        handle_datagram(&online_message(), peer, &local, &mut registry);
    }
    assert_eq!(registry.len(), 1);
    assert!(registry.contains(&peer));
}

#[test]
fn self_originated_announcements_are_dropped() {
    let mut registry = PeerRegistry::new();
    let me = ip(192, 168, 1, 7);
    let local = Some(vec![me]);
    handle_datagram(&online_message(), me, &local, &mut registry);
    assert_eq!(registry.len(), 0);
}

#[test]
fn non_announcement_datagrams_are_ignored() {
    let mut registry = PeerRegistry::new();
    let local = Some(vec![ip(192, 168, 1, 7)]);
    handle_datagram(&b"HELLO".to_vec(), ip(192, 168, 1, 9), &local, &mut registry);
    // malformed bytes fail the equality test silently
    handle_datagram(&vec![0xFF, 0xFE], ip(192, 168, 1, 9), &local, &mut registry);
    assert_eq!(registry.len(), 0);
}

#[test]
fn drain_empties_and_yields_every_peer_once() {
    let mut registry = PeerRegistry::new();
    registry.insert(ip(10, 0, 0, 1));
    registry.insert(ip(10, 0, 0, 2));
    registry.insert(ip(10, 0, 0, 1));
    assert_eq!(registry.len(), 2);
    let mut drained = registry.drain();
    assert_eq!(registry.len(), 0);
    drained.sort_by_key(|a| (a.o0, a.o1, a.o2, a.o3));
    assert_eq!(drained, vec![ip(10, 0, 0, 1), ip(10, 0, 0, 2)]);
}

#[test]
fn insert_after_drain_lands_in_next_snapshot() {
    // A failed connection attempt inserts nothing back: only a fresh
    // announcement can requeue a peer.
    let mut registry = PeerRegistry::new();
    let peer = ip(10, 0, 0, 1);
    registry.insert(peer);
    let drained = registry.drain();
    assert_eq!(drained, vec![peer]);
    assert_eq!(registry.len(), 0);
    // the peer re-announces, so it lands in the next snapshot alone
    let local = Some(vec![ip(10, 0, 0, 9)]);
    handle_datagram(&online_message(), peer, &local, &mut registry);
    assert_eq!(registry.drain(), vec![peer]);
}

#[test]
fn two_hosts_discover_each_other_exactly_once() {
    // Two hosts on one subnet: each receives the other's announcement
    // (possibly more than once per interval) and records it once.
    let host_a = ip(192, 168, 1, 7);
    let host_b = ip(192, 168, 1, 8);
    let local_a = Some(vec![host_a]);
    let local_b = Some(vec![host_b]);
    let mut registry_a = PeerRegistry::new();
    let mut registry_b = PeerRegistry::new();

    // each host also hears its own broadcast echo
    handle_datagram(&online_message(), host_a, &local_a, &mut registry_a);
    handle_datagram(&online_message(), host_b, &local_a, &mut registry_a);
    handle_datagram(&online_message(), host_b, &local_a, &mut registry_a);
    handle_datagram(&online_message(), host_b, &local_b, &mut registry_b);
    handle_datagram(&online_message(), host_a, &local_b, &mut registry_b);
    handle_datagram(&online_message(), host_a, &local_b, &mut registry_b);

    assert_eq!(registry_a.drain(), vec![host_b]);
    assert_eq!(registry_b.drain(), vec![host_a]);
}

#[test]
fn subnet_broadcast_assumes_a_24() {
    let b = subnet_broadcast_address(&ip(192, 168, 3, 17));
    assert_eq!(b, ip(192, 168, 3, 255));
}

#[test]
fn one_round_broadcasts_on_every_subnet() {
    let interfaces = vec![ip(192, 168, 1, 7), ip(10, 0, 4, 2)];
    let targets = broadcast_targets(&interfaces, BROADCAST_PORT);
    assert_eq!(targets.len(), 2);
    assert_eq!(targets[0], b"192.168.1.255:5000".to_vec());
    assert_eq!(targets[1], b"10.0.4.255:5000".to_vec());
}

#[test]
fn directed_broadcast_uses_the_real_mask() {
    let b = directed_broadcast_address(&ip(10, 1, 130, 9), &ip(255, 255, 192, 0));
    assert_eq!(b, ip(10, 1, 191, 255));
    let c = directed_broadcast_address(&ip(192, 168, 3, 17), &ip(255, 255, 255, 0));
    assert_eq!(c, ip(192, 168, 3, 255));
}

#[test]
fn socket_addresses_are_rendered_with_the_port() {
    assert_eq!(u16_decimal(0), b"0".to_vec());
    assert_eq!(u16_decimal(65535), b"65535".to_vec());
    let addr = socket_addr_bytes(&ip(192, 168, 1, 9), SESSION_PORT);
    assert_eq!(addr, b"192.168.1.9:7878".to_vec());
    let targets = connection_targets(&vec![ip(10, 0, 0, 1), ip(10, 0, 0, 200)], SESSION_PORT);
    assert_eq!(targets.len(), 2);
    assert_eq!(targets[0], b"10.0.0.1:7878".to_vec());
    assert_eq!(targets[1], b"10.0.0.200:7878".to_vec());
}
