use streetpass::engine::EngineState;
use streetpass::handshake::FieldOutcome;
use streetpass::handshake::HsEvent;
use streetpass::handshake::HsState;
use streetpass::identity::DeviceInfo;
use streetpass::packet::PeerPayload;
use streetpass::table::INTERACTION_TTL;

const MY_MAC: [u8; 6] = [0x10, 0x20, 0x30, 0x40, 0x50, 0x60];
const PEER_MAC: [u8; 6] = [0xAA, 0xBB, 0xCC, 0xDD, 0xEE, 0xFF];

fn node(capacity: usize) -> EngineState {
    let identity = DeviceInfo::new(
        Some(String::from("42")),
        Some(String::from("NodeA")),
        Some(String::from("Alice")),
    );
    EngineState::new(identity, MY_MAC, capacity, INTERACTION_TTL)
}

#[test]
fn successful_handshake_records_with_field_defaults() {
    let mut eng = node(20);
    assert!(eng.should_attempt_handshake(&PEER_MAC, 1000));
    let mut session = eng.begin_handshake(&PEER_MAC, 1000).unwrap();
    assert_eq!(session.state, HsState::Idle);
    assert!(!eng.is_scanning);
    assert!(!eng.is_advertising);

    session.step(HsEvent::ConnectResult(true));
    assert_eq!(session.state, HsState::Connecting);
    session.step(HsEvent::ServiceResult(true));
    assert_eq!(session.state, HsState::ServiceDiscovered);
    session.step(HsEvent::FieldRead(FieldOutcome::Text(String::from("SN9"))));
    assert_eq!(session.state, HsState::Exchanging);
    session.step(HsEvent::FieldRead(FieldOutcome::Text(String::from("NodeB"))));
    // The owner field read times out: the payload keeps its default.
    session.step(HsEvent::FieldRead(FieldOutcome::Missing));
    session.step(HsEvent::FieldRead(FieldOutcome::Number(1234)));
    assert_eq!(session.state, HsState::Acknowledging);
    session.step(HsEvent::AckWriteResult(true));
    assert_eq!(session.state, HsState::Done);

    let recorded = eng.finish_handshake(&session, 1500);
    assert!(recorded);
    assert!(eng.is_scanning);
    assert!(eng.is_advertising);
    let r = eng.table.lookup(&PEER_MAC).unwrap();
    assert_eq!(r.interaction_count, 1);
    assert_eq!(r.first_seen, 1500);
    assert_eq!(r.payload.serial_num, "SN9");
    assert_eq!(r.payload.device_name, "NodeB");
    assert_eq!(r.payload.device_owner, "");
    assert_eq!(r.payload.timestamp, 1234);
}

#[test]
fn connect_failure_leaves_no_record() {
    let mut eng = node(20);
    let mut session = eng.begin_handshake(&PEER_MAC, 1000).unwrap();
    session.step(HsEvent::ConnectResult(false));
    assert_eq!(session.state, HsState::Failed);
    let recorded = eng.finish_handshake(&session, 1500);
    assert!(!recorded);
    assert_eq!(eng.table.len(), 0);
    assert!(eng.is_scanning);
    assert!(eng.is_advertising);
}

#[test]
fn missing_service_leaves_no_record() {
    let mut eng = node(20);
    let mut session = eng.begin_handshake(&PEER_MAC, 1000).unwrap();
    session.step(HsEvent::ConnectResult(true));
    session.step(HsEvent::ServiceResult(false));
    assert_eq!(session.state, HsState::Failed);
    assert!(!eng.finish_handshake(&session, 1500));
    assert_eq!(eng.table.len(), 0);
}

#[test]
fn hard_transport_error_aborts_exchange() {
    let mut eng = node(20);
    let mut session = eng.begin_handshake(&PEER_MAC, 1000).unwrap();
    session.step(HsEvent::ConnectResult(true));
    session.step(HsEvent::ServiceResult(true));
    session.step(HsEvent::FieldRead(FieldOutcome::Text(String::from("SN9"))));
    session.step(HsEvent::FieldRead(FieldOutcome::TransportError));
    assert_eq!(session.state, HsState::Failed);
    assert!(!eng.finish_handshake(&session, 1500));
    assert_eq!(eng.table.len(), 0);
}

#[test]
fn ack_write_failure_leaves_no_record() {
    let mut eng = node(20);
    let mut session = eng.begin_handshake(&PEER_MAC, 1000).unwrap();
    session.step(HsEvent::ConnectResult(true));
    session.step(HsEvent::ServiceResult(true));
    session.step(HsEvent::FieldRead(FieldOutcome::Text(String::from("SN9"))));
    session.step(HsEvent::FieldRead(FieldOutcome::Text(String::from("NodeB"))));
    session.step(HsEvent::FieldRead(FieldOutcome::Text(String::from("Bob"))));
    session.step(HsEvent::FieldRead(FieldOutcome::Number(1234)));
    session.step(HsEvent::AckWriteResult(false));
    assert_eq!(session.state, HsState::Failed);
    assert!(!eng.finish_handshake(&session, 1500));
    assert_eq!(eng.table.len(), 0);
}

#[test]
fn blocked_peer_is_not_handshaked_again() {
    let mut eng = node(20);
    let mut session = eng.begin_handshake(&PEER_MAC, 1000).unwrap();
    session.step(HsEvent::ConnectResult(true));
    session.step(HsEvent::ServiceResult(true));
    session.step(HsEvent::FieldRead(FieldOutcome::Text(String::from("SN9"))));
    session.step(HsEvent::FieldRead(FieldOutcome::Text(String::from("NodeB"))));
    session.step(HsEvent::FieldRead(FieldOutcome::Text(String::from("Bob"))));
    session.step(HsEvent::FieldRead(FieldOutcome::Number(1234)));
    session.step(HsEvent::AckWriteResult(true));
    assert!(eng.finish_handshake(&session, 1000));
    // Within the TTL the discovery filter skips the peer outright.
    assert!(!eng.should_attempt_handshake(&PEER_MAC, 1500));
    assert!(eng.begin_handshake(&PEER_MAC, 1500).is_none());
    assert!(eng.is_scanning);
    assert!(eng.is_advertising);
    // Once the window lapses the peer is discovered afresh.
    assert!(eng.should_attempt_handshake(&PEER_MAC, 1000 + INTERACTION_TTL));
}

#[test]
fn failed_handshake_does_not_block_retry() {
    let mut eng = node(20);
    let mut session = eng.begin_handshake(&PEER_MAC, 1000).unwrap();
    session.step(HsEvent::ConnectResult(false));
    assert!(!eng.finish_handshake(&session, 1000));
    assert!(eng.should_attempt_handshake(&PEER_MAC, 1001));
}

#[test]
fn handshake_into_full_table_evicts_exactly_one() {
    let mut eng = node(3);
    let a = [1u8, 0, 0, 0, 0, 0];
    let b = [2u8, 0, 0, 0, 0, 0];
    let c = [3u8, 0, 0, 0, 0, 0];
    let stub = PeerPayload {
        serial_num: String::from("1"),
        device_name: String::from("n"),
        device_owner: String::from("o"),
        timestamp: 0,
    };
    eng.table.record_interaction(&a, stub.duplicate(), 10);
    eng.table.record_interaction(&b, stub.duplicate(), 20);
    eng.table.record_interaction(&c, stub, 30);
    assert_eq!(eng.table.len(), 3);

    let mut session = eng.begin_handshake(&PEER_MAC, 40).unwrap();
    session.step(HsEvent::ConnectResult(true));
    session.step(HsEvent::ServiceResult(true));
    session.step(HsEvent::FieldRead(FieldOutcome::Text(String::from("SN9"))));
    session.step(HsEvent::FieldRead(FieldOutcome::Text(String::from("NodeB"))));
    session.step(HsEvent::FieldRead(FieldOutcome::Text(String::from("Bob"))));
    session.step(HsEvent::FieldRead(FieldOutcome::Number(1234)));
    session.step(HsEvent::AckWriteResult(true));
    assert!(eng.finish_handshake(&session, 40));

    assert_eq!(eng.table.len(), 3);
    assert!(eng.table.lookup(&a).is_none());
    assert!(eng.table.lookup(&b).is_some());
    assert!(eng.table.lookup(&c).is_some());
    assert!(eng.table.lookup(&PEER_MAC).is_some());
}

#[test]
fn stray_events_are_ignored() {
    let mut eng = node(20);
    let mut session = eng.begin_handshake(&PEER_MAC, 1000).unwrap();
    session.step(HsEvent::AckWriteResult(true));
    assert_eq!(session.state, HsState::Idle);
    session.step(HsEvent::ConnectResult(true));
    session.step(HsEvent::FieldRead(FieldOutcome::Missing));
    assert_eq!(session.state, HsState::Connecting);
    assert!(!eng.finish_handshake(&session, 1500));
    assert_eq!(eng.table.len(), 0);
}
