//! The resolution and aggregation engine against an in-memory store and a
//! control-plane snapshot.

use aa_models::controlplane::{Answer, ControlPlane};
use aa_models::device::{
    get_device_from_guid, get_devices_uuid, Device, DeviceType, HardwareType, LiveState, TvState,
};
use aa_models::refresh::ResolveError;
use aa_models::sqlsprinkler::{check_if_device_is_sqlsprinkler_host, get_zone, Zone};
use aa_models::store::Store;

fn device(guid: &str, ip: &str, kind: DeviceType, state: LiveState) -> Device {
    Device {
        ip: String::from(ip),
        guid: String::from(guid),
        kind,
        hardware: HardwareType::PI,
        last_state: state,
        sw_version: String::from("3"),
        useruuid: String::from("owner"),
        name: String::from(guid),
        nicknames: vec![String::from(guid)],
    }
}

fn zone(name: &str, id: i8, order: i8, on: bool) -> Zone {
    Zone {
        name: String::from(name),
        gpio: 4,
        time: 600,
        enabled: true,
        auto_off: true,
        system_order: order,
        state: on,
        id,
    }
}

#[test]
fn absent_id_resolves_to_the_default_sentinel() {
    let mut store = Store::new();
    let cp = ControlPlane::new();
    let got = get_device_from_guid(&String::from("missing"), &mut store, &cp)
        .expect("resolution succeeds");
    assert_eq!(got, Device::default());
    assert!(store.get(&String::from("missing")).is_none());
}

#[test]
fn default_sentinel_is_an_empty_switch() {
    let d = Device::default();
    assert_eq!(d.guid, String::new());
    assert!(matches!(d.kind, DeviceType::SWITCH));
    assert!(matches!(d.hardware, HardwareType::OTHER));
    assert!(matches!(d.last_state, LiveState::Bool(false)));
    assert_eq!(d.sw_version, String::from("0"));
    assert_eq!(d.name, String::new());
    assert_eq!(d.nicknames, vec![String::new()]);
}

#[test]
fn plain_switch_resolves_unchanged() {
    let mut store = Store::new();
    let cp = ControlPlane::new();
    let dev = device("switch-A", "10.0.0.2", DeviceType::SWITCH, LiveState::Bool(true));
    store.set(&String::from("switch-A"), &dev);
    let got = get_device_from_guid(&String::from("switch-A"), &mut store, &cp)
        .expect("resolution succeeds");
    assert_eq!(got, dev);
}

#[test]
fn unreachable_host_degrades_to_false_without_write_back() {
    let mut store = Store::new();
    let cp = ControlPlane::new();
    let host = device("host-B", "10.0.0.3", DeviceType::SqlSprinklerHost, LiveState::Bool(true));
    store.set(&String::from("host-B"), &host);
    let got = get_device_from_guid(&String::from("host-B"), &mut store, &cp)
        .expect("resolution succeeds");
    assert!(matches!(got.last_state, LiveState::Bool(false)));
    // No write-back: the store still holds the stale "on" state.
    let stored = store.get(&String::from("host-B")).expect("record is present");
    assert!(matches!(stored.last_state, LiveState::Bool(true)));
}

#[test]
fn reachable_host_takes_and_persists_its_reported_state() {
    let mut store = Store::new();
    let mut cp = ControlPlane::new();
    let ip = String::from("10.0.0.3");
    cp.set_probe(&ip, true);
    cp.set_host_state(&ip, Answer::Value(true));
    let host = device("host-B", "10.0.0.3", DeviceType::SqlSprinklerHost, LiveState::Bool(false));
    store.set(&String::from("host-B"), &host);
    let got = get_device_from_guid(&String::from("host-B"), &mut store, &cp)
        .expect("resolution succeeds");
    assert!(matches!(got.last_state, LiveState::Bool(true)));
    let stored = store.get(&String::from("host-B")).expect("record is present");
    assert!(matches!(stored.last_state, LiveState::Bool(true)));
}

#[test]
fn reachable_host_with_failed_state_query_reads_off() {
    let mut store = Store::new();
    let mut cp = ControlPlane::new();
    let ip = String::from("10.0.0.3");
    cp.set_probe(&ip, true);
    let host = device("host-B", "10.0.0.3", DeviceType::SqlSprinklerHost, LiveState::Bool(true));
    store.set(&String::from("host-B"), &host);
    let got = get_device_from_guid(&String::from("host-B"), &mut store, &cp)
        .expect("resolution succeeds");
    assert!(matches!(got.last_state, LiveState::Bool(false)));
}

#[test]
fn reachable_host_with_malformed_state_fails_hard() {
    let mut store = Store::new();
    let mut cp = ControlPlane::new();
    let ip = String::from("10.0.0.3");
    cp.set_probe(&ip, true);
    cp.set_host_state(&ip, Answer::Malformed);
    let host = device("host-B", "10.0.0.3", DeviceType::SqlSprinklerHost, LiveState::Bool(true));
    store.set(&String::from("host-B"), &host);
    let got = get_device_from_guid(&String::from("host-B"), &mut store, &cp);
    assert_eq!(got, Err(ResolveError::HostStateMalformed));
}

#[test]
fn battery_takes_its_status_payload_wholesale() {
    let mut store = Store::new();
    let mut cp = ControlPlane::new();
    let ip = String::from("10.0.0.4");
    let payload = String::from("{\"charge\": 97, \"on_line\": true}");
    cp.set_battery_payload(&ip, Answer::Value(payload.clone()));
    let ups = device("ups-1", "10.0.0.4", DeviceType::BATTERY, LiveState::Bool(false));
    store.set(&String::from("ups-1"), &ups);
    let got = get_device_from_guid(&String::from("ups-1"), &mut store, &cp)
        .expect("resolution succeeds");
    match &got.last_state {
        LiveState::Raw(s) => assert_eq!(*s, payload),
        other => panic!("expected the raw payload, got {:?}", other),
    }
    let stored = store.get(&String::from("ups-1")).expect("record is present");
    assert_eq!(stored, got);
}

#[test]
fn battery_transport_failure_is_a_hard_failure() {
    let mut store = Store::new();
    let cp = ControlPlane::new();
    let ups = device("ups-1", "10.0.0.4", DeviceType::BATTERY, LiveState::Bool(false));
    store.set(&String::from("ups-1"), &ups);
    let got = get_device_from_guid(&String::from("ups-1"), &mut store, &cp);
    assert_eq!(got, Err(ResolveError::BatteryTransport));
}

#[test]
fn battery_malformed_payload_is_a_hard_failure() {
    let mut store = Store::new();
    let mut cp = ControlPlane::new();
    let ip = String::from("10.0.0.4");
    cp.set_battery_payload(&ip, Answer::Malformed);
    let ups = device("ups-1", "10.0.0.4", DeviceType::BATTERY, LiveState::Bool(false));
    store.set(&String::from("ups-1"), &ups);
    let got = get_device_from_guid(&String::from("ups-1"), &mut store, &cp);
    assert_eq!(got, Err(ResolveError::BatteryMalformed));
}

#[test]
fn tv_merges_reported_fields_and_keeps_the_rest() {
    let mut store = Store::new();
    let mut cp = ControlPlane::new();
    let ip = String::from("10.0.0.5");
    cp.set_tv_payload(&ip, Answer::Value(TvState { on: Some(true), volume: None }));
    let tv = device(
        "tv-1",
        "10.0.0.5",
        DeviceType::TV,
        LiveState::Tv(TvState { on: Some(false), volume: Some(7) }),
    );
    store.set(&String::from("tv-1"), &tv);
    let got = get_device_from_guid(&String::from("tv-1"), &mut store, &cp)
        .expect("resolution succeeds");
    match got.last_state {
        LiveState::Tv(t) => {
            assert_eq!(t.on, Some(true));
            assert_eq!(t.volume, Some(7));
        },
        other => panic!("expected a television state, got {:?}", other),
    }
}

#[test]
fn tv_transport_failure_keeps_the_record_unchanged() {
    let mut store = Store::new();
    let cp = ControlPlane::new();
    let tv = device(
        "tv-1",
        "10.0.0.5",
        DeviceType::TV,
        LiveState::Tv(TvState { on: Some(false), volume: Some(7) }),
    );
    store.set(&String::from("tv-1"), &tv);
    let got = get_device_from_guid(&String::from("tv-1"), &mut store, &cp)
        .expect("resolution succeeds");
    assert_eq!(got, tv);
}

fn host_with_two_zones() -> (Store, ControlPlane, Device) {
    let mut store = Store::new();
    let mut cp = ControlPlane::new();
    let ip = String::from("10.0.0.6");
    cp.set_probe(&ip, true);
    cp.set_host_state(&ip, Answer::Value(true));
    cp.set_zone_list(
        &ip,
        Answer::Value(vec![zone("Front yard", 0, 0, true), zone("Back yard", 1, 1, false)]),
    );
    let host = device("host-B", "10.0.0.6", DeviceType::SqlSprinklerHost, LiveState::Bool(false));
    store.set(&String::from("host-B"), &host);
    (store, cp, host)
}

#[test]
fn expand_host_synthesizes_one_device_per_zone() {
    let (_store, cp, host) = host_with_two_zones();
    let zones = check_if_device_is_sqlsprinkler_host(&host, &cp).expect("zone query succeeds");
    assert_eq!(zones.len(), 2);
    assert_eq!(zones[0].guid, String::from("host-B-0"));
    assert_eq!(zones[1].guid, String::from("host-B-1"));
    assert_eq!(zones[0].ip, host.ip);
    assert_eq!(zones[1].ip, host.ip);
    assert!(matches!(zones[0].kind, DeviceType::SPRINKLER));
    assert_eq!(zones[0].name, String::from("Front yard"));
    assert_eq!(
        zones[0].nicknames,
        vec![String::from("Front yard"), String::from("Zone 1")],
    );
    match zones[1].last_state {
        LiveState::Zone { on, id, index } => {
            assert!(!on);
            assert_eq!(id, 1);
            assert_eq!(index, 1);
        },
        ref other => panic!("expected a zone state, got {:?}", other),
    }
}

#[test]
fn expand_of_a_non_host_is_empty() {
    let cp = ControlPlane::new();
    let dev = device("switch-A", "10.0.0.2", DeviceType::SWITCH, LiveState::Bool(true));
    let zones = check_if_device_is_sqlsprinkler_host(&dev, &cp).expect("nothing to query");
    assert!(zones.is_empty());
}

#[test]
fn expand_with_unanswered_zone_query_fails_hard() {
    let cp = ControlPlane::new();
    let host = device("host-B", "10.0.0.6", DeviceType::SqlSprinklerHost, LiveState::Bool(false));
    let got = check_if_device_is_sqlsprinkler_host(&host, &cp);
    assert_eq!(got, Err(ResolveError::ZoneListUnavailable));
}

#[test]
fn composite_id_resolves_through_zone_lookup() {
    let mut store = Store::new();
    let mut cp = ControlPlane::new();
    let host_id = String::from("11111111-2222-3333-4444-555555555555");
    let ip = String::from("10.0.0.7");
    cp.set_probe(&ip, true);
    cp.set_host_state(&ip, Answer::Value(true));
    cp.set_zone_list(&ip, Answer::Value(vec![zone("Front", 0, 0, false), zone("Back", 2, 1, true)]));
    let host = device(
        "11111111-2222-3333-4444-555555555555",
        "10.0.0.7",
        DeviceType::SqlSprinklerHost,
        LiveState::Bool(false),
    );
    store.set(&host_id, &host);
    let composite = String::from("11111111-2222-3333-4444-555555555555-2");
    let got = get_device_from_guid(&composite, &mut store, &cp).expect("resolution succeeds");
    assert_eq!(got.guid, composite);
    assert_eq!(got.name, String::from("Back"));
    assert_eq!(got.ip, ip);
    assert!(matches!(got.kind, DeviceType::SPRINKLER));
    // The same lookup, called directly.
    let direct = get_zone(&composite, &mut store, &cp);
    assert_eq!(direct, got);
}

#[test]
fn zone_lookup_without_a_match_yields_the_sentinel() {
    let (mut store, cp, _host) = host_with_two_zones();
    // The store key of the host must have the canonical shape for the
    // composite id to parse; reuse the two-zone control plane with it.
    let host_id = String::from("bf176c86-f96b-4412-bd97-3f09fa5a7ce8");
    let host = device(
        "bf176c86-f96b-4412-bd97-3f09fa5a7ce8",
        "10.0.0.6",
        DeviceType::SqlSprinklerHost,
        LiveState::Bool(false),
    );
    store.set(&host_id, &host);
    let got = get_zone(
        &String::from("bf176c86-f96b-4412-bd97-3f09fa5a7ce8-9"),
        &mut store,
        &cp,
    );
    assert_eq!(got, Device::default());
}

#[test]
fn zone_lookup_with_an_absent_host_yields_the_sentinel() {
    let mut store = Store::new();
    let cp = ControlPlane::new();
    let got = get_zone(
        &String::from("11111111-2222-3333-4444-555555555555-2"),
        &mut store,
        &cp,
    );
    assert_eq!(got, Device::default());
}

#[test]
fn owner_with_one_switch_lists_exactly_that_switch() {
    let mut store = Store::new();
    let cp = ControlPlane::new();
    let dev = device("switch-A", "10.0.0.2", DeviceType::SWITCH, LiveState::Bool(true));
    store.set(&String::from("switch-A"), &dev);
    store.set_user_devices(&String::from("U1"), &vec![String::from("switch-A")]);
    let got = get_devices_uuid(&String::from("U1"), &mut store, &cp).expect("listing succeeds");
    assert_eq!(got.len(), 1);
    assert_eq!(got[0].guid, String::from("switch-A"));
    assert!(matches!(got[0].last_state, LiveState::Bool(true)));
}

#[test]
fn owner_with_a_reachable_host_gets_zones_then_host() {
    let (mut store, cp, _host) = host_with_two_zones();
    store.set_user_devices(&String::from("U2"), &vec![String::from("host-B")]);
    let got = get_devices_uuid(&String::from("U2"), &mut store, &cp).expect("listing succeeds");
    assert_eq!(got.len(), 3);
    assert_eq!(got[0].guid, String::from("host-B-0"));
    assert_eq!(got[1].guid, String::from("host-B-1"));
    assert_eq!(got[2].guid, String::from("host-B"));
    assert!(matches!(got[2].last_state, LiveState::Bool(true)));
}

#[test]
fn listing_persists_the_host_refresh() {
    let (mut store, cp, _host) = host_with_two_zones();
    store.set_user_devices(&String::from("U2"), &vec![String::from("host-B")]);
    get_devices_uuid(&String::from("U2"), &mut store, &cp).expect("listing succeeds");
    let stored = store.get(&String::from("host-B")).expect("record is present");
    assert!(matches!(stored.last_state, LiveState::Bool(true)));
}

#[test]
fn owner_with_an_unreachable_host_gets_only_the_degraded_host() {
    let mut store = Store::new();
    let cp = ControlPlane::new();
    let host = device("host-B", "10.0.0.6", DeviceType::SqlSprinklerHost, LiveState::Bool(true));
    store.set(&String::from("host-B"), &host);
    store.set_user_devices(&String::from("U2"), &vec![String::from("host-B")]);
    let got = get_devices_uuid(&String::from("U2"), &mut store, &cp).expect("listing succeeds");
    assert_eq!(got.len(), 1);
    assert_eq!(got[0].guid, String::from("host-B"));
    assert!(matches!(got[0].last_state, LiveState::Bool(false)));
}

#[test]
fn listing_is_idempotent_under_a_stable_snapshot() {
    let (mut store, cp, _host) = host_with_two_zones();
    let dev = device("switch-A", "10.0.0.2", DeviceType::SWITCH, LiveState::Bool(true));
    store.set(&String::from("switch-A"), &dev);
    let tv = device(
        "tv-1",
        "10.0.0.5",
        DeviceType::TV,
        LiveState::Tv(TvState { on: Some(false), volume: Some(7) }),
    );
    store.set(&String::from("tv-1"), &tv);
    store.set_user_devices(
        &String::from("U3"),
        &vec![String::from("switch-A"), String::from("host-B"), String::from("tv-1")],
    );
    let first = get_devices_uuid(&String::from("U3"), &mut store, &cp).expect("listing succeeds");
    let second = get_devices_uuid(&String::from("U3"), &mut store, &cp).expect("listing succeeds");
    assert_eq!(first, second);
}

#[test]
fn battery_failure_stops_the_listing() {
    let mut store = Store::new();
    let cp = ControlPlane::new();
    let ups = device("ups-1", "10.0.0.4", DeviceType::BATTERY, LiveState::Bool(false));
    store.set(&String::from("ups-1"), &ups);
    store.set_user_devices(&String::from("U4"), &vec![String::from("ups-1")]);
    let got = get_devices_uuid(&String::from("U4"), &mut store, &cp);
    assert_eq!(got, Err(ResolveError::BatteryTransport));
}

#[test]
fn duplicate_ids_list_the_device_twice() {
    let mut store = Store::new();
    let cp = ControlPlane::new();
    let dev = device("switch-A", "10.0.0.2", DeviceType::SWITCH, LiveState::Bool(true));
    store.set(&String::from("switch-A"), &dev);
    store.set_user_devices(
        &String::from("U5"),
        &vec![String::from("switch-A"), String::from("switch-A")],
    );
    let first = get_devices_uuid(&String::from("U5"), &mut store, &cp).expect("listing succeeds");
    assert_eq!(first.len(), 2);
    assert_eq!(first[0], first[1]);
    let second = get_devices_uuid(&String::from("U5"), &mut store, &cp).expect("listing succeeds");
    assert_eq!(first, second);
}

#[test]
fn composite_id_in_an_owner_list_resolves_to_its_zone() {
    let mut store = Store::new();
    let mut cp = ControlPlane::new();
    let host_id = String::from("11111111-2222-3333-4444-555555555555");
    let ip = String::from("10.0.0.7");
    cp.set_probe(&ip, true);
    cp.set_host_state(&ip, Answer::Value(true));
    cp.set_zone_list(&ip, Answer::Value(vec![zone("Front", 0, 0, false)]));
    let host = device(
        "11111111-2222-3333-4444-555555555555",
        "10.0.0.7",
        DeviceType::SqlSprinklerHost,
        LiveState::Bool(false),
    );
    store.set(&host_id, &host);
    let composite = String::from("11111111-2222-3333-4444-555555555555-0");
    store.set_user_devices(&String::from("U6"), &vec![composite.clone()]);
    let got = get_devices_uuid(&String::from("U6"), &mut store, &cp).expect("listing succeeds");
    assert_eq!(got.len(), 1);
    assert_eq!(got[0].guid, composite);
    assert!(matches!(got[0].kind, DeviceType::SPRINKLER));
    assert_eq!(got[0].name, String::from("Front"));
}

#[test]
fn battery_parse_refreshes_and_persists_a_battery() {
    let mut store = Store::new();
    let mut cp = ControlPlane::new();
    let ip = String::from("10.0.0.4");
    let payload = String::from("{\"charge\": 55}");
    cp.set_battery_payload(&ip, Answer::Value(payload.clone()));
    let ups = device("ups-1", "10.0.0.4", DeviceType::BATTERY, LiveState::Bool(false));
    let got = aa_models::battery::parse_device(ups, &mut store, &cp).expect("refresh succeeds");
    match &got.last_state {
        LiveState::Raw(s) => assert_eq!(*s, payload),
        other => panic!("expected the raw payload, got {:?}", other),
    }
    let stored = store.get(&String::from("ups-1")).expect("record was persisted");
    assert_eq!(stored, got);
}

#[test]
fn battery_parse_leaves_other_kinds_alone() {
    let mut store = Store::new();
    let cp = ControlPlane::new();
    let dev = device("switch-A", "10.0.0.2", DeviceType::SWITCH, LiveState::Bool(true));
    let got = aa_models::battery::parse_device(dev.clone(), &mut store, &cp)
        .expect("nothing to refresh");
    assert_eq!(got, dev);
    assert!(store.get(&String::from("switch-A")).is_none());
}

#[test]
fn tv_parse_leaves_other_kinds_alone() {
    let mut store = Store::new();
    let cp = ControlPlane::new();
    let dev = device("switch-A", "10.0.0.2", DeviceType::SWITCH, LiveState::Bool(true));
    let got = aa_models::tv::parse_device(dev.clone(), &mut store, &cp);
    assert_eq!(got, dev);
}

#[test]
fn tv_parse_merges_and_persists_a_television() {
    let mut store = Store::new();
    let mut cp = ControlPlane::new();
    let ip = String::from("10.0.0.5");
    cp.set_tv_payload(&ip, Answer::Value(TvState { on: Some(true), volume: Some(9) }));
    let tv = device("tv-1", "10.0.0.5", DeviceType::TV, LiveState::Bool(false));
    let got = aa_models::tv::parse_device(tv, &mut store, &cp);
    match got.last_state {
        LiveState::Tv(t) => {
            assert_eq!(t.on, Some(true));
            assert_eq!(t.volume, Some(9));
        },
        ref other => panic!("expected a television state, got {:?}", other),
    }
    let stored = store.get(&String::from("tv-1")).expect("record was persisted");
    assert_eq!(stored, got);
}

#[test]
fn unknown_owner_lists_the_sentinel_for_the_empty_id() {
    let mut store = Store::new();
    let cp = ControlPlane::new();
    let got = get_devices_uuid(&String::from("nobody"), &mut store, &cp).expect("listing succeeds");
    assert_eq!(got.len(), 1);
    assert_eq!(got[0], Device::default());
}
