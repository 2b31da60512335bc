use streetpass::engine::EngineState;
use streetpass::identity::DeviceInfo;
use streetpass::packet::StreetPassPacket;
use streetpass::table::INTERACTION_TTL;
use streetpass::table::MAX_PEERS;

const MY_MAC: [u8; 6] = [0x10, 0x20, 0x30, 0x40, 0x50, 0x60];
const PEER_MAC: [u8; 6] = [0xAA, 0xBB, 0xCC, 0xDD, 0xEE, 0xFF];

fn node() -> EngineState {
    let identity = DeviceInfo::new(
        Some(String::from("42")),
        Some(String::from("NodeA")),
        Some(String::from("Alice")),
    );
    EngineState::new(identity, MY_MAC, MAX_PEERS, INTERACTION_TTL)
}

fn peer_beacon(timestamp: u64) -> StreetPassPacket {
    let identity = DeviceInfo::new(
        Some(String::from("7")),
        Some(String::from("NodeB")),
        Some(String::from("Bob")),
    );
    StreetPassPacket::Beacon { identity, timestamp }
}

#[test]
fn beacon_is_recorded_and_acked() {
    let mut eng = node();
    let reply = eng.handle_packet(&PEER_MAC, Some(peer_beacon(1000)), 1000);
    match reply {
        Some(StreetPassPacket::Ack { timestamp }) => assert_eq!(timestamp, 1000),
        _ => panic!("a beacon deserves an acknowledgment"),
    }
    let r = eng.table.lookup(&PEER_MAC).unwrap();
    assert_eq!(r.interaction_count, 1);
    assert_eq!(r.first_seen, 1000);
    assert_eq!(r.last_seen, 1000);
    assert_eq!(r.payload.serial_num, "7");
    assert_eq!(r.payload.device_name, "NodeB");
    assert_eq!(r.payload.device_owner, "Bob");
    assert_eq!(r.payload.timestamp, 1000);
}

#[test]
fn repeat_beacon_counts_twice_not_two_records() {
    let mut eng = node();
    eng.handle_packet(&PEER_MAC, Some(peer_beacon(1000)), 1000);
    let reply = eng.handle_packet(&PEER_MAC, Some(peer_beacon(1050)), 1050);
    match reply {
        Some(StreetPassPacket::Ack { timestamp }) => assert_eq!(timestamp, 1050),
        _ => panic!("the repeat beacon deserves an acknowledgment too"),
    }
    assert_eq!(eng.table.len(), 1);
    let r = eng.table.lookup(&PEER_MAC).unwrap();
    assert_eq!(r.interaction_count, 2);
    assert_eq!(r.last_seen, 1050);
    assert_eq!(r.first_seen, 1000);
}

#[test]
fn malformed_frame_changes_nothing() {
    let mut eng = node();
    let reply = eng.handle_packet(&PEER_MAC, None, 1000);
    assert!(reply.is_none());
    assert_eq!(eng.table.len(), 0);
    assert!(!eng.led_on);
}

#[test]
fn own_beacon_is_ignored() {
    let mut eng = node();
    let reply = eng.handle_packet(&MY_MAC, Some(peer_beacon(1000)), 1000);
    assert!(reply.is_none());
    assert_eq!(eng.table.len(), 0);
}

#[test]
fn ack_and_game_data_are_not_recorded() {
    let mut eng = node();
    let reply = eng.handle_packet(&PEER_MAC, Some(StreetPassPacket::Ack { timestamp: 77 }), 1000);
    assert!(reply.is_none());
    let game = StreetPassPacket::GameData { game_id: 3, data: vec![1, 2, 3] };
    let reply = eng.handle_packet(&PEER_MAC, Some(game), 1001);
    assert!(reply.is_none());
    assert_eq!(eng.table.len(), 0);
}

#[test]
fn led_lights_on_first_encounter_only() {
    let mut eng = node();
    assert!(!eng.led_on);
    eng.handle_packet(&PEER_MAC, Some(peer_beacon(1000)), 1000);
    assert!(eng.led_on);
    eng.led_on = false;
    eng.handle_packet(&PEER_MAC, Some(peer_beacon(1001)), 1001);
    assert!(!eng.led_on);
}

#[test]
fn broadcast_tick_emits_own_beacon_and_sweeps() {
    let identity = DeviceInfo::new(
        Some(String::from("42")),
        Some(String::from("NodeA")),
        Some(String::from("Alice")),
    );
    let mut eng = EngineState::new(identity, MY_MAC, MAX_PEERS, 100);
    eng.handle_packet(&PEER_MAC, Some(peer_beacon(10)), 10);
    let beacon = eng.broadcast_tick(2000);
    match beacon {
        Some(StreetPassPacket::Beacon { identity, timestamp }) => {
            assert_eq!(timestamp, 2000);
            assert_eq!(identity.serial_num, "42");
            assert_eq!(identity.device_name, "NodeA");
            assert_eq!(identity.device_owner, "Alice");
        },
        _ => panic!("an advertising node emits its beacon"),
    }
    // The stale record from time 10 lapsed long before 2000.
    assert_eq!(eng.table.len(), 0);
}

#[test]
fn broadcast_tick_does_nothing_while_paused() {
    let mut eng = node();
    eng.handle_packet(&PEER_MAC, Some(peer_beacon(10)), 10);
    eng.stop();
    let beacon = eng.broadcast_tick(2000);
    assert!(beacon.is_none());
    assert_eq!(eng.table.len(), 1);
}

#[test]
fn stop_drops_both_roles() {
    let mut eng = node();
    assert!(eng.is_scanning);
    assert!(eng.is_advertising);
    eng.stop();
    assert!(!eng.is_scanning);
    assert!(!eng.is_advertising);
}
