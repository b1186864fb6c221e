use aktags_cloud::discovery::DiscoveryService;
use aktags_cloud::net::{IpAddress, SocketAddress};

fn addr(last: u8, port: u16) -> SocketAddress {
    SocketAddress { ip: IpAddress::V4(10, 0, 0, last), port, flowinfo: 0, scope_id: 0 }
}

#[test]
fn register_then_get() {
    let mut d = DiscoveryService::new();
    assert!(d.get_peers().is_empty());
    d.register_peer("n1".to_string(), Some("laptop".to_string()), addr(1, 22000));
    let p = d.get_peer("n1").unwrap();
    assert_eq!(p.node_id, "n1");
    assert_eq!(p.display_name.as_deref(), Some("laptop"));
    assert_eq!(p.addr, addr(1, 22000));
    assert!(d.get_peer("n2").is_none());
}

#[test]
fn reregister_updates_in_place() {
    let mut d = DiscoveryService::new();
    d.register_peer("n1".to_string(), Some("laptop".to_string()), addr(1, 1));
    d.register_peer("n2".to_string(), None, addr(2, 2));
    let seen_before = d.get_peer("n1").unwrap().last_seen;
    d.register_peer("n1".to_string(), None, addr(9, 9));
    let peers = d.get_peers();
    assert_eq!(peers.len(), 2);
    assert_eq!(peers[0].node_id, "n1");
    assert_eq!(peers[0].addr, addr(9, 9));
    assert_eq!(peers[0].display_name.as_deref(), Some("laptop"));
    assert!(peers[0].last_seen >= seen_before);
    assert_eq!(peers[1].node_id, "n2");
    assert_eq!(peers[1].addr, addr(2, 2));
    d.register_peer("n1".to_string(), Some("desk".to_string()), addr(9, 9));
    assert_eq!(d.get_peer("n1").unwrap().display_name.as_deref(), Some("desk"));
}

#[test]
fn remove_then_get() {
    let mut d = DiscoveryService::new();
    d.register_peer("a".to_string(), None, addr(1, 1));
    d.register_peer("b".to_string(), None, addr(2, 2));
    d.register_peer("c".to_string(), None, addr(3, 3));
    d.remove_peer("b");
    assert!(d.get_peer("b").is_none());
    let ids: Vec<String> = d.get_peers().into_iter().map(|p| p.node_id).collect();
    assert_eq!(ids, vec!["a", "c"]);
    d.remove_peer("missing");
    assert_eq!(d.get_peers().len(), 2);
}

#[test]
fn registry_follows_a_sequence_of_calls() {
    let mut d = DiscoveryService::new();
    d.register_peer("a".to_string(), None, addr(1, 1));
    d.register_peer("b".to_string(), None, addr(2, 2));
    d.remove_peer("a");
    d.register_peer("c".to_string(), None, addr(3, 3));
    d.register_peer("a".to_string(), None, addr(4, 4));
    d.register_peer("b".to_string(), None, addr(5, 5));
    d.remove_peer("c");
    d.remove_peer("c");
    assert_eq!(d.get_peer("a").unwrap().addr, addr(4, 4));
    assert_eq!(d.get_peer("b").unwrap().addr, addr(5, 5));
    assert!(d.get_peer("c").is_none());
    assert!(d.get_peer("d").is_none());
}

#[test]
fn register_peer_at_records_the_instant() {
    let mut d = DiscoveryService::new();
    let t1 = std::time::Instant::now();
    d.register_peer_at("n1".to_string(), None, addr(1, 1), t1);
    assert_eq!(d.get_peer("n1").unwrap().last_seen, t1);
    let t2 = t1 + std::time::Duration::from_secs(5);
    d.register_peer_at("n1".to_string(), Some("x".to_string()), addr(2, 2), t2);
    let p = d.get_peer("n1").unwrap();
    assert_eq!(p.last_seen, t2);
    assert_eq!(p.addr, addr(2, 2));
    assert_eq!(d.get_peers().len(), 1);
}
