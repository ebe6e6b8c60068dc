//! The peripheral battery cache: one fetch in flight per device, reads that
//! invalidate, and a pending set that always empties when a fetch ends.

use bluetui::address::Address;
use bluetui::battery::{battery_refresh_cycle, BatteryCache, FETCH_TIMEOUT_SECS};
use bluetui::bluetooth::Device;

fn dev(bits: u64, connected: bool) -> Device {
    Device {
        addr: Address::new(bits),
        icon: "",
        alias: format!("dev-{bits}"),
        is_paired: true,
        is_favorite: false,
        is_trusted: true,
        is_connected: connected,
        battery_percentage: None,
    }
}

#[test]
fn second_spawn_attempt_is_refused_while_pending() {
    let mut cache = BatteryCache::new();
    let d = Address::new(7);
    assert!(cache.maybe_spawn_fetch(d, true));
    assert!(!cache.maybe_spawn_fetch(d, true));
}

#[test]
fn disconnected_device_never_spawns() {
    let mut cache = BatteryCache::new();
    let d = Address::new(8);
    assert!(!cache.maybe_spawn_fetch(d, false));
}

#[test]
fn read_returns_cached_value_once_then_none() {
    let mut cache = BatteryCache::new();
    let d = Address::new(9);
    assert!(cache.maybe_spawn_fetch(d, true));
    cache.finish_fetch(d, Some(83));
    assert_eq!(cache.read_and_invalidate(d), Some(83));
    assert_eq!(cache.read_and_invalidate(d), None);
}

#[test]
fn fetch_without_answer_leaves_no_value_and_no_pending_entry() {
    // A transport that never responds ends as a timeout: the fetch reports
    // no value, and the device must leave the pending set regardless.
    let mut cache = BatteryCache::new();
    let d = Address::new(10);
    assert!(cache.maybe_spawn_fetch(d, true));
    cache.finish_fetch(d, None);
    assert_eq!(cache.read_and_invalidate(d), None);
    assert!(cache.maybe_spawn_fetch(d, true));
    assert_eq!(FETCH_TIMEOUT_SECS, 5);
}

#[test]
fn out_of_range_reading_is_not_cached() {
    let mut cache = BatteryCache::new();
    let d = Address::new(11);
    assert!(cache.maybe_spawn_fetch(d, true));
    cache.finish_fetch(d, Some(101));
    assert_eq!(cache.read_and_invalidate(d), None);

    assert!(cache.maybe_spawn_fetch(d, true));
    cache.finish_fetch(d, Some(100));
    assert_eq!(cache.read_and_invalidate(d), Some(100));
}

#[test]
fn a_new_reading_replaces_the_old_one() {
    let mut cache = BatteryCache::new();
    let d = Address::new(12);
    assert!(cache.maybe_spawn_fetch(d, true));
    cache.finish_fetch(d, Some(50));
    assert!(cache.maybe_spawn_fetch(d, true));
    cache.finish_fetch(d, Some(49));
    assert_eq!(cache.read_and_invalidate(d), Some(49));
}

#[test]
fn devices_are_tracked_independently() {
    let mut cache = BatteryCache::new();
    let a = Address::new(1);
    let b = Address::new(2);
    assert!(cache.maybe_spawn_fetch(a, true));
    assert!(cache.maybe_spawn_fetch(b, true));
    cache.finish_fetch(a, Some(10));
    assert_eq!(cache.read_and_invalidate(a), Some(10));
    assert_eq!(cache.read_and_invalidate(b), None);
    assert!(!cache.maybe_spawn_fetch(b, true));
}

#[test]
fn refresh_cycle_reads_then_respawns() {
    let mut cache = BatteryCache::new();
    let connected = dev(21, true);
    let offline = dev(22, false);

    let devices = vec![dev(21, true), dev(22, false)];
    let (values, spawns) = battery_refresh_cycle(&mut cache, &devices);
    assert_eq!(values, vec![None, None]);
    assert_eq!(spawns, vec![connected.addr]);

    cache.finish_fetch(connected.addr, Some(64));
    let (values, spawns) = battery_refresh_cycle(&mut cache, &devices);
    assert_eq!(values, vec![Some(64), None]);
    assert_eq!(spawns, vec![connected.addr]);

    // With the fetch still in flight, the next cycle spawns nothing new.
    let (values, spawns) = battery_refresh_cycle(&mut cache, &devices);
    assert_eq!(values, vec![None, None]);
    assert_eq!(spawns, vec![]);
    let _ = offline;
}
