//! The record store: write, read, remove, and owner id lists.

use aa_models::device::{Device, DeviceType, HardwareType, LiveState};
use aa_models::store::Store;

fn switch(guid: &str, on: bool) -> Device {
    Device {
        ip: String::from("127.0.0.1"),
        guid: String::from(guid),
        kind: DeviceType::SWITCH,
        hardware: HardwareType::ARDUINO,
        last_state: LiveState::Bool(on),
        sw_version: String::from("1.2"),
        useruuid: String::from("u-1"),
        name: String::from("Test Switch"),
        nicknames: vec![String::from("outlet")],
    }
}

#[test]
fn set_then_get_returns_an_equal_record() {
    let mut store = Store::new();
    let dev = switch("switch-A", true);
    store.set(&String::from("switch-A"), &dev);
    let got = store.get(&String::from("switch-A")).expect("record is present");
    assert_eq!(got, dev);
}

#[test]
fn get_of_an_absent_id_is_none() {
    let store = Store::new();
    assert!(store.get(&String::from("nothing-here")).is_none());
}

#[test]
fn set_replaces_what_was_there() {
    let mut store = Store::new();
    store.set(&String::from("switch-A"), &switch("switch-A", false));
    store.set(&String::from("switch-A"), &switch("switch-A", true));
    let got = store.get(&String::from("switch-A")).expect("record is present");
    assert_eq!(got, switch("switch-A", true));
}

#[test]
fn remove_deletes_the_record() {
    let mut store = Store::new();
    store.set(&String::from("switch-A"), &switch("switch-A", true));
    store.remove(&String::from("switch-A"));
    assert!(store.get(&String::from("switch-A")).is_none());
}

#[test]
fn user_id_lists_round_trip() {
    let mut store = Store::new();
    let ids = vec![String::from("switch-A"), String::from("host-B")];
    store.set_user_devices(&String::from("U1"), &ids);
    let got = store.get_user_devices(&String::from("U1")).expect("list is present");
    assert_eq!(got, ids);
    assert!(store.get_user_devices(&String::from("U2")).is_none());
}

#[test]
fn database_update_writes_under_the_record_id() {
    let mut store = Store::new();
    let dev = switch("switch-A", true);
    assert!(dev.database_update(&mut store));
    let got = store.get(&String::from("switch-A")).expect("record is present");
    assert_eq!(got, dev);
}
