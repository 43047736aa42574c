use switcher_rust::device::{DeviceState, SwitcherDevice};
use switcher_rust::pairing::{PairingConfig, PairingError};

fn create_test_device(id: &str, name: &str, ip: &str) -> SwitcherDevice {
    SwitcherDevice {
        device_id: id.to_string(),
        name: name.to_string(),
        ip_address: ip.to_string(),
        mac_address: "00:11:22:33:44:55".to_string(),
        device_key: "a1".to_string(),
        device_type: "Switcher Power Plug".to_string(),
        state: DeviceState::Off,
        power_consumption: 0,
    }
}

#[test]
fn test_pair_device() {
    let mut pairing = PairingConfig::new();
    let device = create_test_device("123", "Test Device", "192.168.1.100");

    let result = pairing.pair_device(device, "Test Alias".to_string());
    assert!(result.is_ok());
    assert_eq!(pairing.devices.len(), 1);
    assert!(pairing.has_alias("Test Alias"));
}

#[test]
fn test_duplicate_alias() {
    let mut pairing = PairingConfig::new();
    let device1 = create_test_device("123", "Test Device 1", "192.168.1.100");
    let device2 = create_test_device("456", "Test Device 2", "192.168.1.101");

    pairing
        .pair_device(device1, "Test Alias".to_string())
        .unwrap();
    let result = pairing.pair_device(device2, "Test Alias".to_string());
    assert!(result.is_err());
}

#[test]
fn test_unpair_device() {
    let mut pairing = PairingConfig::new();
    let device = create_test_device("123", "Test Device", "192.168.1.100");

    pairing
        .pair_device(device, "Test Alias".to_string())
        .unwrap();
    assert_eq!(pairing.devices.len(), 1);

    let result = pairing.unpair_device("Test Alias");
    assert!(result.is_ok());
    assert_eq!(pairing.devices.len(), 0);
    assert!(!pairing.has_alias("Test Alias"));
}

#[test]
fn pairing_repair_replaces_old_alias() {
    let mut pairing = PairingConfig::new();
    pairing
        .pair_device(
            create_test_device("123", "Test Device", "192.168.1.100"),
            "Old Alias".to_string(),
        )
        .unwrap();
    pairing
        .pair_device(
            create_test_device("123", "Test Device", "192.168.1.100"),
            "New Alias".to_string(),
        )
        .unwrap();

    assert_eq!(pairing.devices.len(), 1);
    assert!(!pairing.has_alias("Old Alias"));
    assert!(pairing.has_alias("New Alias"));
}

#[test]
fn pairing_unpair_unknown_alias_fails() {
    let mut pairing = PairingConfig::new();
    let result = pairing.unpair_device("Nobody");
    assert_eq!(result, Err(PairingError::AliasNotFound));
}

#[test]
fn pairing_lookup_by_alias() {
    let mut pairing = PairingConfig::new();
    let device = create_test_device("123", "Test Device", "192.168.1.100");
    pairing
        .pair_device(device, "Test Alias".to_string())
        .unwrap();

    let found = pairing.get_device_by_alias("Test Alias").unwrap();
    assert_eq!(found.device.device_id, "123");
    assert_eq!(found.device.ip_address, "192.168.1.100");
    assert!(pairing.get_device_by_alias("Other").is_none());
}

#[test]
fn pairing_update_device_info_refreshes_record() {
    let mut pairing = PairingConfig::new();
    pairing
        .pair_device(
            create_test_device("123", "Old Name", "192.168.1.100"),
            "Test Alias".to_string(),
        )
        .unwrap();

    let fresh = create_test_device("123", "New Name", "192.168.1.200");
    assert!(pairing.update_device_info(&fresh));
    let found = pairing.get_device_by_alias("Test Alias").unwrap();
    assert_eq!(found.device.name, "New Name");
    assert_eq!(found.device.ip_address, "192.168.1.200");

    let unknown = create_test_device("999", "Nobody", "192.168.1.1");
    assert!(!pairing.update_device_info(&unknown));
}
