use zmq_patterns::chat::{
    beacon_message, beacon_topic, ip_mask, nameserver_candidates, own_address, parse_beacon,
    parse_registration, peer_report_after_roll, peer_status, registration_accepted,
    registration_message, registration_reply, relay_message, relay_topic, roll_peer_report,
    shown_message, PORT_NAMESERVER,
};
use zmq_patterns::endpoint::tcp_endpoint;

#[test]
fn beacon_round_trip() {
    let b = beacon_message("192.168.1.20");
    assert_eq!(b, "NAMESERVER:192.168.1.20");
    assert!(b.starts_with(&beacon_topic()));
    assert_eq!(parse_beacon(&b), Some("192.168.1.20".to_string()));
}

#[test]
fn other_messages_are_not_beacons() {
    assert_eq!(parse_beacon("NAMESERVER"), None);
    assert_eq!(parse_beacon("RELAY:x"), None);
    assert_eq!(parse_beacon("NAMESERVERX:1.2.3.4"), None);
    assert_eq!(parse_beacon("NAMESERVER:a:b"), Some("a".to_string()));
    assert_eq!(parse_beacon("NAMESERVER:"), Some("".to_string()));
}

#[test]
fn mask_is_prefix_before_last_dot() {
    assert_eq!(ip_mask("192.168.1.20"), "192.168.1");
    assert_eq!(ip_mask("10.0.0.1"), "10.0.0");
    assert_eq!(ip_mask("localhost"), "192.168.1");
    assert_eq!(ip_mask("a."), "a");
    for ip in ["192.168.1.20", "10.0.0.1", "nodots", "x.y"].iter() {
        let expected = ip.rsplitn(2, '.').nth(1).unwrap_or("192.168.1");
        assert_eq!(ip_mask(ip), expected);
    }
}

#[test]
fn candidates_cover_the_subnet() {
    let c = nameserver_candidates("192.168.1", PORT_NAMESERVER);
    assert_eq!(c.len(), 254);
    assert_eq!(c[0], "tcp://192.168.1.1:9001");
    assert_eq!(c[253], "tcp://192.168.1.254:9001");
    let server = tcp_endpoint("192.168.1.77", PORT_NAMESERVER);
    assert!(c.contains(&server));
    assert_eq!(c[76], server);
}

#[test]
fn own_address_falls_back_to_loopback() {
    assert_eq!(own_address(None), "127.0.0.1");
    assert_eq!(own_address(Some("10.1.2.3".to_string())), "10.1.2.3");
}

#[test]
fn registration_round_trip() {
    let m = registration_message("10.0.0.5", "alice");
    assert_eq!(m, "10.0.0.5:alice");
    let r = parse_registration(&m).unwrap();
    assert_eq!(r.address, "10.0.0.5");
    assert_eq!(r.user, "alice");
    assert!(parse_registration("nobody").is_none());
    assert!(registration_accepted(&registration_reply()));
    assert!(!registration_accepted("no"));
    assert!(!registration_accepted("ok "));
}

#[test]
fn relayed_status_is_shown_whole() {
    let status = peer_status("bob", "10.0.0.9", true);
    assert_eq!(status, "(bob,10.0.0.9:ON)");
    assert_eq!(peer_status("bob", "10.0.0.9", false), "(bob,10.0.0.9:OFF)");
    let relayed = relay_message(&status);
    assert_eq!(relayed, "RELAY:(bob,10.0.0.9:ON)");
    assert!(relayed.starts_with(&relay_topic()));
    assert_eq!(shown_message(&relayed), Some(status));
    assert_eq!(shown_message("RELAY:plain"), None);
    assert_eq!(shown_message("a:b:c:d"), Some("b:c".to_string()));
}

#[test]
fn peer_reports_follow_the_roll() {
    assert_eq!(peer_report_after_roll("u", "1.2.3.4", 5), Some("(u,1.2.3.4:ON)".to_string()));
    assert_eq!(peer_report_after_roll("u", "1.2.3.4", 91), Some("(u,1.2.3.4:OFF)".to_string()));
    assert_eq!(peer_report_after_roll("u", "1.2.3.4", 10), None);
    let mut rng = rand::rng();
    for _ in 0..200 {
        let (roll, report) = roll_peer_report(&mut rng, "u", "1.2.3.4");
        assert!((1..=100).contains(&roll));
        assert_eq!(report, peer_report_after_roll("u", "1.2.3.4", roll));
    }
}
