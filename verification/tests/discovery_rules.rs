use morselink_core::config::{DISCOVERY_MULTICAST_GROUP, DISCOVERY_MULTICAST_PORT, MDNS_SERVICE_TYPE};
use morselink_core::desktop::peer_label;
use morselink_core::discovery::{mdns_registration, DiscoveryConfig, PeerAd, PeerTable};

#[test]
fn announcement_carries_protocol_version() {
    let ad = PeerAd::announce("Pixel", "abc123", 5555);
    assert_eq!(ad.protocol_version, "morselink/1.0");
    assert_eq!(ad.device_name, "Pixel");
    assert_eq!(ad.peer_id, "abc123");
    assert_eq!(ad.port, 5555);
    assert!(ad.addresses.is_empty());
}

#[test]
fn discovery_defaults() {
    let c = DiscoveryConfig::default();
    assert_eq!(c.group, DISCOVERY_MULTICAST_GROUP);
    assert_eq!(c.group, "239.255.60.42");
    assert_eq!(c.port, DISCOVERY_MULTICAST_PORT);
    assert_eq!(c.port, 45842);
    assert_eq!(c.announce_interval_ms, 2000);
    assert_eq!(c.forget_after_ms, 30000);
}

#[test]
fn table_deduplicates_and_refreshes() {
    let mut t = PeerTable::new();
    t.track(&PeerAd::announce("Zed", "z", 1), "10.0.0.9:1", 100);
    t.track(&PeerAd::announce("Alpha", "a", 2), "10.0.0.1:2", 200);
    t.track(&PeerAd::announce("Renamed", "z", 1), "10.0.0.99:1", 300);
    assert_eq!(t.len(), 2);
    let live = t.live_peers(310, 30000);
    assert_eq!(live.len(), 2);
    assert_eq!(live[0].device_name, "Alpha");
    assert_eq!(live[1].device_name, "Zed");
    assert_eq!(live[1].addr, "10.0.0.99:1");
    assert_eq!(live[1].last_seen, 300);
    assert_eq!(peer_label(&live[0]), "Alpha @ 10.0.0.1:2");
}

#[test]
fn stale_peers_are_forgotten() {
    let mut t = PeerTable::new();
    t.track(&PeerAd::announce("old", "o", 1), "a", 0);
    t.track(&PeerAd::announce("new", "n", 1), "b", 25_000);
    let live = t.live_peers(30_000, 30_000);
    assert_eq!(live.len(), 1);
    assert_eq!(live[0].peer_id, "n");
    assert_eq!(t.len(), 1);
    // a clock reading earlier than the last sighting counts as age 0
    let live = t.live_peers(10, 1);
    assert_eq!(live.len(), 1);
    let live = t.live_peers(26_000, 1000);
    assert_eq!(live.len(), 0);
    assert_eq!(t.len(), 0);
}

#[test]
fn live_peers_sorted_by_name_stably() {
    let mut t = PeerTable::new();
    for (name, id) in [("b", "1"), ("a", "2"), ("B", "3"), ("b", "4"), ("", "5"), ("ab", "6")] {
        t.track(&PeerAd::announce(name, id, 1), "x", 5);
    }
    let live = t.live_peers(5, 10);
    let names: Vec<&str> = live.iter().map(|p| p.device_name.as_str()).collect();
    assert_eq!(names, vec!["", "B", "a", "ab", "b", "b"]);
    let mut expected: Vec<String> = ["b", "a", "B", "b", "", "ab"].iter().map(|s| s.to_string()).collect();
    expected.sort();
    assert_eq!(names, expected);
}

#[test]
fn mdns_names() {
    let r = mdns_registration("  John's Pixel 8 ", 45843);
    assert_eq!(r.service_type, MDNS_SERVICE_TYPE);
    assert_eq!(r.instance_name, "John's Pixel 8._morselink._udp.local.");
    assert_eq!(r.host_name, "--John-s-Pixel-8-.local");
    assert_eq!(r.port, 45843);
    assert_eq!(r.properties.len(), 2);
    assert_eq!(r.properties[0], ("peer_id".to_string(), "  John's Pixel 8 ".to_string()));
    assert_eq!(r.properties[1], ("proto".to_string(), "morselink/1.0".to_string()));
    let e = mdns_registration("", 1);
    assert_eq!(e.host_name, "morselink.local");
    assert_eq!(e.instance_name, "._morselink._udp.local.");
}
