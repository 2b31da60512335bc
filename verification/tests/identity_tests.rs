use streetpass::identity::DeviceInfo;
use streetpass::identity::NVSKeyword;
use streetpass::identity::UpdateDecision;
use streetpass::identity::parse_serial;
use streetpass::mac::format_mac;
use streetpass::mac::mac_eq;
use streetpass::mac::BROADCAST_MAC;
use streetpass::packet::frame_fits;
use streetpass::packet::PeerPayload;
use streetpass::packet::StreetPassPacket;

#[test]
fn missing_identity_fields_fall_back_to_unknown() {
    let info = DeviceInfo::new(None, Some(String::from("NodeA")), None);
    assert_eq!(info.serial_num, "Unknown");
    assert_eq!(info.device_name, "NodeA");
    assert_eq!(info.device_owner, "Unknown");
}

#[test]
fn stored_identity_fields_are_kept() {
    let info = DeviceInfo::new(
        Some(String::from("42")),
        Some(String::from("NodeA")),
        Some(String::from("Alice")),
    );
    assert_eq!(info.serial_num, "42");
    assert_eq!(info.device_name, "NodeA");
    assert_eq!(info.device_owner, "Alice");
}

#[test]
fn serial_number_update_is_rejected() {
    assert!(matches!(
        DeviceInfo::update(&NVSKeyword::SerialNumber, true),
        UpdateDecision::Reject
    ));
    assert!(matches!(
        DeviceInfo::update(&NVSKeyword::SerialNumber, false),
        UpdateDecision::Reject
    ));
}

#[test]
fn device_name_update_is_always_stored() {
    assert!(matches!(DeviceInfo::update(&NVSKeyword::DeviceName, true), UpdateDecision::Store));
    assert!(matches!(DeviceInfo::update(&NVSKeyword::DeviceName, false), UpdateDecision::Store));
}

#[test]
fn owner_update_needs_a_registered_owner() {
    assert!(matches!(DeviceInfo::update(&NVSKeyword::DeviceOwner, true), UpdateDecision::Store));
    assert!(matches!(
        DeviceInfo::update(&NVSKeyword::DeviceOwner, false),
        UpdateDecision::Reject
    ));
}

#[test]
fn nvs_keys_match_the_store_layout() {
    assert_eq!(NVSKeyword::SerialNumber.nvs_key(), "serial_num");
    assert_eq!(NVSKeyword::DeviceName.nvs_key(), "device_name");
    assert_eq!(NVSKeyword::DeviceOwner.nvs_key(), "device_owner");
}

#[test]
fn describe_lists_every_field() {
    let info = DeviceInfo::new(
        Some(String::from("42")),
        Some(String::from("NodeA")),
        Some(String::from("Alice")),
    );
    assert_eq!(
        info.describe(),
        "Information about device: \nSerial Number: 42\nDevice Name: NodeA\nDevice Owner: Alice\n"
    );
}

#[test]
fn duplicate_is_value_identical() {
    let info = DeviceInfo::new(Some(String::from("42")), None, None);
    let copy = info.duplicate();
    assert_eq!(copy.serial_num, info.serial_num);
    assert_eq!(copy.device_name, info.device_name);
    assert_eq!(copy.device_owner, info.device_owner);
}

#[test]
fn format_mac_is_colon_separated_uppercase_hex() {
    assert_eq!(format_mac(&[0xAA, 0xBB, 0x0C, 0x01, 0x00, 0xFF]), "AA:BB:0C:01:00:FF");
    assert_eq!(format_mac(&[0, 0, 0, 0, 0, 0]), "00:00:00:00:00:00");
    assert_eq!(format_mac(&BROADCAST_MAC), "FF:FF:FF:FF:FF:FF");
}

#[test]
fn mac_eq_compares_all_six_bytes() {
    assert!(mac_eq(&[1, 2, 3, 4, 5, 6], &[1, 2, 3, 4, 5, 6]));
    assert!(!mac_eq(&[1, 2, 3, 4, 5, 6], &[1, 2, 3, 4, 5, 7]));
    assert!(!mac_eq(&[0, 2, 3, 4, 5, 6], &[1, 2, 3, 4, 5, 6]));
}

#[test]
fn parse_serial_reads_decimal_values() {
    assert_eq!(parse_serial("123"), 123);
    assert_eq!(parse_serial("007"), 7);
    assert_eq!(parse_serial("+42"), 42);
    assert_eq!(parse_serial("0"), 0);
    assert_eq!(parse_serial("4294967295"), u32::MAX);
}

#[test]
fn parse_serial_rejects_everything_else_as_zero() {
    assert_eq!(parse_serial(""), 0);
    assert_eq!(parse_serial("+"), 0);
    assert_eq!(parse_serial("abc"), 0);
    assert_eq!(parse_serial("12a"), 0);
    assert_eq!(parse_serial("-5"), 0);
    assert_eq!(parse_serial("4294967296"), 0);
    assert_eq!(parse_serial("Unknown"), 0);
}

#[test]
fn serial_service_data_is_little_endian() {
    let info = DeviceInfo::new(Some(String::from("258")), None, None);
    assert_eq!(info.serial_service_data(), [2, 1, 0, 0]);
    let big = DeviceInfo::new(Some(String::from("4294967295")), None, None);
    assert_eq!(big.serial_service_data(), [0xFF, 0xFF, 0xFF, 0xFF]);
    let unreadable = DeviceInfo::new(None, None, None);
    assert_eq!(unreadable.serial_service_data(), [0, 0, 0, 0]);
}

#[test]
fn frame_size_limit_is_enforced() {
    assert!(frame_fits(0));
    assert!(frame_fits(200));
    assert!(!frame_fits(201));
}

#[test]
fn beacon_carries_the_identity() {
    let identity = DeviceInfo::new(Some(String::from("7")), Some(String::from("NodeB")), None);
    let payload = PeerPayload::from_beacon(identity, 1000);
    assert_eq!(payload.serial_num, "7");
    assert_eq!(payload.device_name, "NodeB");
    assert_eq!(payload.device_owner, "Unknown");
    assert_eq!(payload.timestamp, 1000);
    let ack = StreetPassPacket::Ack { timestamp: 1000 };
    match ack {
        StreetPassPacket::Ack { timestamp } => assert_eq!(timestamp, 1000),
        _ => unreachable!(),
    }
}
