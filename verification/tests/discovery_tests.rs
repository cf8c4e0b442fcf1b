use helios::discovery::beacon_message;
use helios::discovery::broadcast_address;
use helios::discovery::listen_address;
use helios::discovery::peer_from_beacon;
use helios::discovery::peer_from_datagram;
use helios::discovery::BROADCAST_PORT;

#[test]
fn beacon_carries_grpc_port() {
    assert_eq!(beacon_message(50051), "HELIOS_NODE:50051");
    assert_eq!(beacon_message(0), "HELIOS_NODE:0");
    assert_eq!(beacon_message(65535), "HELIOS_NODE:65535");
}

#[test]
fn broadcast_and_listen_addresses() {
    assert_eq!(BROADCAST_PORT, 50052);
    assert_eq!(broadcast_address(), "255.255.255.255:50052");
    assert_eq!(listen_address(), "0.0.0.0:50052");
}

#[test]
fn beacon_names_sender_peer() {
    assert_eq!(peer_from_beacon("HELIOS_NODE:50051", "192.168.1.7"), Some("192.168.1.7:50051".to_string()));
}

#[test]
fn beacon_round_trip() {
    for port in [0u16, 7, 10, 50051, 65535] {
        let msg = beacon_message(port);
        assert_eq!(peer_from_beacon(&msg, "10.0.0.2"), Some(format!("10.0.0.2:{}", port)));
    }
}

#[test]
fn other_messages_are_ignored() {
    assert_eq!(peer_from_beacon("HELLO:50051", "10.0.0.2"), None);
    assert_eq!(peer_from_beacon("HELIOS_NODE", "10.0.0.2"), None);
    assert_eq!(peer_from_beacon("helios_node:1", "10.0.0.2"), None);
    assert_eq!(peer_from_beacon("HELIOS_NODE:1:2", "10.0.0.2"), None);
    assert_eq!(peer_from_beacon("", "10.0.0.2"), None);
}

#[test]
fn empty_port_is_kept() {
    assert_eq!(peer_from_beacon("HELIOS_NODE:", "10.0.0.2"), Some("10.0.0.2:".to_string()));
}

#[test]
fn datagram_bytes_are_read_lossily() {
    assert_eq!(peer_from_datagram(b"HELIOS_NODE:50051", "10.0.0.3"), Some("10.0.0.3:50051".to_string()));
    assert_eq!(peer_from_datagram(b"HELIOS_NODE:5\xff", "10.0.0.3"), Some("10.0.0.3:5\u{fffd}".to_string()));
    assert_eq!(peer_from_datagram(b"\xffHELIOS_NODE:5", "10.0.0.3"), None);
}

#[test]
fn datagram_round_trip() {
    for port in [1u16, 50051, 65535] {
        let msg = beacon_message(port);
        assert_eq!(peer_from_datagram(msg.as_bytes(), "fe80::1"), Some(format!("fe80::1:{}", port)));
    }
}
