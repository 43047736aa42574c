use switcher_rust::device::{DeviceState, SwitcherDevice};
use switcher_rust::discovery::{merge_discovered, DiscoveredDevices, SwitcherDiscovery};
use switcher_rust::cache::DeviceCache;

fn device(id: &str, name: &str) -> SwitcherDevice {
    SwitcherDevice {
        device_id: id.to_string(),
        name: name.to_string(),
        ip_address: "192.168.1.100".to_string(),
        mac_address: "00:11:22:33:44:55".to_string(),
        device_key: "a1".to_string(),
        device_type: "Switcher Power Plug".to_string(),
        state: DeviceState::Off,
        power_consumption: 0,
    }
}

#[test]
fn listener_dedup_first_seen_wins() {
    // Two broadcasts with the same id but different names: one record, the
    // first one.
    let mut seen = DiscoveredDevices::new();
    assert!(seen.insert_or_skip(device("9c4f22", "First")));
    assert!(!seen.insert_or_skip(device("9c4f22", "Second")));
    assert_eq!(seen.len(), 1);
    assert_eq!(seen.devices[0].name, "First");

    // Two different ids: two records.
    assert!(seen.insert_or_skip(device("123456", "Other")));
    assert_eq!(seen.len(), 2);
}

#[test]
fn merge_prefers_discovered_over_cached() {
    let discovered = vec![device("aaa111", "Fresh")];
    let cached = vec![device("aaa111", "Stale"), device("bbb222", "CachedOnly")];
    let merged = merge_discovered(&discovered, &cached);
    assert_eq!(merged.len(), 2);
    assert_eq!(merged[0].device_id, "aaa111");
    assert_eq!(merged[0].name, "Fresh");
    assert_eq!(merged[1].device_id, "bbb222");
    assert_eq!(merged[1].name, "CachedOnly");
}

#[test]
fn discovery_policies() {
    let d = SwitcherDiscovery::new();
    assert!(d.use_cache);
    assert_eq!(d.cache_max_age, 3600);

    let d = SwitcherDiscovery::with_cache_settings(false, 60);
    assert!(!d.use_cache);
    assert_eq!(d.cache_max_age, 60);

    let d = SwitcherDiscovery::without_cache();
    assert!(!d.use_cache);
    assert_eq!(d.cache_max_age, 0);
}

#[test]
fn cache_only_discovery_respects_policy() {
    let mut cache = DeviceCache::new();
    cache.add_device(device("9c4f22", "Plug"));

    let with_cache = SwitcherDiscovery::new();
    let found = with_cache.discover_from_cache_only(&cache);
    assert_eq!(found.len(), 1);
    assert_eq!(found[0].device_id, "9c4f22");

    let no_cache = SwitcherDiscovery::without_cache();
    assert!(no_cache.discover_from_cache_only(&cache).is_empty());
}
