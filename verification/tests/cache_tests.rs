use switcher_rust::cache::DeviceCache;
use switcher_rust::device::{DeviceState, SwitcherDevice};
use switcher_rust::utils::current_timestamp;

fn create_test_device(id: &str, name: &str, ip: &str) -> SwitcherDevice {
    SwitcherDevice {
        device_id: id.to_string(),
        name: name.to_string(),
        ip_address: ip.to_string(),
        mac_address: "00:11:22:33:44:55".to_string(),
        device_key: "a1".to_string(),
        device_type: "Switcher Power Plug".to_string(),
        state: DeviceState::Off,
        power_consumption: 0,
    }
}

#[test]
fn test_cache_add_device() {
    let mut cache = DeviceCache::new();
    let device = create_test_device("123", "Test Device", "192.168.1.100");

    cache.add_device(device.clone());

    assert_eq!(cache.devices.len(), 1);
    assert!(cache.contains_device(&"123".to_string()));
}

#[test]
fn test_cache_fresh_devices() {
    let mut cache = DeviceCache::new();
    let device = create_test_device("123", "Test Device", "192.168.1.100");

    cache.add_device(device);

    // Should be fresh within 1 hour
    let fresh = cache.get_fresh_devices(3600);
    assert_eq!(fresh.len(), 1);

    // Manually set an old timestamp to test freshness
    for cached_device in cache.devices.iter_mut() {
        if cached_device.device.device_id == "123" {
            cached_device.last_seen = current_timestamp() - 10; // 10 seconds ago
        }
    }

    // Should not be fresh if we set max age to 5 seconds
    let not_fresh = cache.get_fresh_devices(5);
    assert_eq!(not_fresh.len(), 0);

    // Should still be fresh if we set max age to 15 seconds
    let still_fresh = cache.get_fresh_devices(15);
    assert_eq!(still_fresh.len(), 1);
}

#[test]
fn test_cache_remove_old_devices() {
    let mut cache = DeviceCache::new();
    let device = create_test_device("123", "Test Device", "192.168.1.100");

    cache.add_device(device);
    assert_eq!(cache.devices.len(), 1);

    // Manually set an old timestamp
    for cached_device in cache.devices.iter_mut() {
        if cached_device.device.device_id == "123" {
            cached_device.last_seen = current_timestamp() - 100; // 100 seconds ago
        }
    }

    // Remove devices older than 50 seconds (should remove the device)
    cache.remove_old_devices(50);
    assert_eq!(cache.devices.len(), 0);
}

#[test]
fn cache_add_device_twice_updates_entry() {
    let mut cache = DeviceCache::new();
    cache.add_device(create_test_device("123", "First Name", "192.168.1.100"));
    cache.add_device(create_test_device("123", "Second Name", "192.168.1.101"));

    assert_eq!(cache.devices.len(), 1);
    assert_eq!(cache.devices[0].device.name, "Second Name");
    assert_eq!(cache.devices[0].device.ip_address, "192.168.1.101");
    assert_eq!(cache.devices[0].discovery_count, 2);
}

#[test]
fn cache_keeps_distinct_ids() {
    let mut cache = DeviceCache::new();
    cache.add_device(create_test_device("123", "One", "192.168.1.100"));
    cache.add_device(create_test_device("456", "Two", "192.168.1.101"));

    assert_eq!(cache.devices.len(), 2);
    assert!(cache.contains_device(&"123".to_string()));
    assert!(cache.contains_device(&"456".to_string()));
    assert!(!cache.contains_device(&"789".to_string()));
}
