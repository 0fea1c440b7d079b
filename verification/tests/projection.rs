//! Projection of device records into the external schema, the per-device
//! control operations, and the liveness probe.

use aa_models::controlplane::{Answer, ControlPlane};
use aa_models::device::{
    Attributes, Device, DeviceType, GoogleDevice, HardwareType, LiveState,
};
use aa_models::sqlsprinkler::{set_system, set_zone, Zone};

fn sample(kind: DeviceType, hardware: HardwareType) -> Device {
    Device {
        ip: String::from("10.0.0.9"),
        guid: String::from("dev-9"),
        kind,
        hardware,
        last_state: LiveState::Bool(false),
        sw_version: String::from("2.0"),
        useruuid: String::from("owner"),
        name: String::from("Porch"),
        nicknames: vec![String::from("porch light")],
    }
}

#[test]
fn device_types_project_to_the_external_tags() {
    assert_eq!(
        sample(DeviceType::LIGHT, HardwareType::ARDUINO).get_google_device_type(),
        "action.devices.types.LIGHT",
    );
    assert_eq!(
        sample(DeviceType::SWITCH, HardwareType::ARDUINO).get_google_device_type(),
        "action.devices.types.SWITCH",
    );
    assert_eq!(
        sample(DeviceType::SqlSprinklerHost, HardwareType::PI).get_google_device_type(),
        "action.devices.types.SWITCH",
    );
    assert_eq!(
        sample(DeviceType::GARAGE, HardwareType::OTHER).get_google_device_type(),
        "action.devices.types.GARAGE",
    );
    assert_eq!(
        sample(DeviceType::SPRINKLER, HardwareType::PI).get_google_device_type(),
        "action.devices.types.SPRINKLER",
    );
    assert_eq!(
        sample(DeviceType::ROUTER, HardwareType::OTHER).get_google_device_type(),
        "action.devices.types.ROUTER",
    );
    assert_eq!(
        sample(DeviceType::TV, HardwareType::LG).get_google_device_type(),
        "action.devices.types.TV",
    );
}

#[test]
fn traits_follow_the_kind() {
    assert_eq!(
        sample(DeviceType::SWITCH, HardwareType::ARDUINO).get_google_device_traits(),
        vec!["action.devices.traits.OnOff"],
    );
    assert_eq!(
        sample(DeviceType::GARAGE, HardwareType::OTHER).get_google_device_traits(),
        vec!["action.devices.traits.OpenClose"],
    );
    assert_eq!(
        sample(DeviceType::ROUTER, HardwareType::OTHER).get_google_device_traits(),
        vec!["action.devices.traits.Reboot"],
    );
    assert_eq!(
        sample(DeviceType::TV, HardwareType::LG).get_google_device_traits(),
        vec!["action.devices.traits.OnOff", "action.devices.traits.Volume"],
    );
}

#[test]
fn hardware_projects_to_its_display_name() {
    assert_eq!(sample(DeviceType::SWITCH, HardwareType::ARDUINO).get_google_device_hardware(), "Arduino");
    assert_eq!(sample(DeviceType::SWITCH, HardwareType::PI).get_google_device_hardware(), "Raspberry Pi");
    assert_eq!(sample(DeviceType::SWITCH, HardwareType::OTHER).get_google_device_hardware(), "Other");
    assert_eq!(sample(DeviceType::SWITCH, HardwareType::LG).get_google_device_hardware(), "LG");
}

#[test]
fn attributes_follow_the_kind() {
    assert_eq!(
        sample(DeviceType::SWITCH, HardwareType::ARDUINO).get_attributes(),
        Attributes::OnOff { command_only_on_off: false, query_only_on_off: false },
    );
    assert_eq!(
        sample(DeviceType::GARAGE, HardwareType::OTHER).get_attributes(),
        Attributes::OpenClose { discrete_only_open_close: true },
    );
    match sample(DeviceType::TV, HardwareType::LG).get_attributes() {
        Attributes::Tv { volume_default_percentage, volume_can_mute_and_unmute, .. } => {
            assert_eq!(volume_default_percentage, 10);
            assert!(volume_can_mute_and_unmute);
        },
        other => panic!("expected television attributes, got {:?}", other),
    }
}

#[test]
fn display_name_falls_back_to_the_id() {
    let named = sample(DeviceType::SWITCH, HardwareType::ARDUINO);
    assert_eq!(named.get_name(), &String::from("Porch"));
    let mut unnamed = sample(DeviceType::SWITCH, HardwareType::ARDUINO);
    unnamed.name = String::new();
    assert_eq!(unnamed.get_name(), &String::from("dev-9"));
}

#[test]
fn api_urls_are_formatted_per_kind() {
    let arduino = sample(DeviceType::SWITCH, HardwareType::ARDUINO);
    assert_eq!(
        arduino.get_api_url_with_param(String::from("on"), String::from("true")),
        String::from("http://10.0.0.9/on?param=true"),
    );
    let host = sample(DeviceType::SqlSprinklerHost, HardwareType::PI);
    assert_eq!(
        host.get_api_url_with_param(String::from("on"), String::from("true")),
        String::from("https://api.peasenet.com/sprinkler/systems/dev-9/state"),
    );
    let other = sample(DeviceType::SWITCH, HardwareType::OTHER);
    assert_eq!(
        other.get_api_url_with_param(String::from("on"), String::from("true")),
        String::from("?param=true"),
    );
}

#[test]
fn sync_entry_projects_the_whole_record() {
    let dev = sample(DeviceType::GARAGE, HardwareType::OTHER);
    let entry = dev.google_smarthome_json();
    assert_eq!(entry.id, String::from("dev-9"));
    assert_eq!(entry.device_type, String::from("action.devices.types.GARAGE"));
    assert_eq!(entry.traits, vec![String::from("action.devices.traits.OpenClose")]);
    assert_eq!(entry.name, String::from("Porch"));
    assert_eq!(entry.default_names, vec![String::from("Porch")]);
    assert_eq!(entry.nicknames, vec![String::from("porch light")]);
    assert_eq!(entry.manufacturer, String::from("GTECH"));
    assert_eq!(entry.model, String::from("Other"));
    assert_eq!(entry.hw_version, String::from("1.0"));
    assert_eq!(entry.sw_version, String::from("2.0"));
    assert!(entry.will_report_state);
}

#[test]
fn kind_tags_parse_back_to_their_kinds() {
    assert_eq!("LIGHT".parse::<DeviceType>(), Ok(DeviceType::LIGHT));
    assert_eq!("SWITCH".parse::<DeviceType>(), Ok(DeviceType::SWITCH));
    assert_eq!("GARAGE".parse::<DeviceType>(), Ok(DeviceType::GARAGE));
    assert_eq!("SPRINKLER".parse::<DeviceType>(), Ok(DeviceType::SPRINKLER));
    assert_eq!("ROUTER".parse::<DeviceType>(), Ok(DeviceType::ROUTER));
    assert_eq!("SQLSPRINKLER_HOST".parse::<DeviceType>(), Ok(DeviceType::SqlSprinklerHost));
    assert_eq!("TV".parse::<DeviceType>(), Ok(DeviceType::TV));
    assert_eq!("BATTERY".parse::<DeviceType>(), Ok(DeviceType::BATTERY));
    assert_eq!("toaster".parse::<DeviceType>(), Err(()));
}

#[test]
fn hardware_tags_parse_back_to_their_families() {
    assert_eq!("ARDUINO".parse::<HardwareType>(), Ok(HardwareType::ARDUINO));
    assert_eq!("PI".parse::<HardwareType>(), Ok(HardwareType::PI));
    assert_eq!("OTHER".parse::<HardwareType>(), Ok(HardwareType::OTHER));
    assert_eq!("LG".parse::<HardwareType>(), Ok(HardwareType::LG));
    assert_eq!("Z80".parse::<HardwareType>(), Err(()));
}

#[test]
fn is_online_reflects_the_probe() {
    let mut cp = ControlPlane::new();
    let dev = sample(DeviceType::SWITCH, HardwareType::ARDUINO);
    assert!(!dev.is_online(&cp));
    cp.set_probe(&String::from("10.0.0.9"), true);
    assert!(dev.is_online(&cp));
}

#[test]
fn set_system_toggles_a_reachable_host() {
    let mut cp = ControlPlane::new();
    let ip = String::from("10.0.0.6");
    cp.set_host_state(&ip, Answer::Value(false));
    assert!(set_system(ip.clone(), true, &mut cp));
    assert!(matches!(cp.host_state(&ip), Answer::Value(true)));
}

#[test]
fn set_system_fails_on_an_unreachable_host() {
    let mut cp = ControlPlane::new();
    assert!(!set_system(String::from("10.9.9.9"), true, &mut cp));
}

#[test]
fn set_zone_toggles_the_matching_zone_only() {
    let mut cp = ControlPlane::new();
    let ip = String::from("10.0.0.6");
    let z0 = Zone {
        name: String::from("Front"),
        gpio: 4,
        time: 600,
        enabled: true,
        auto_off: true,
        system_order: 0,
        state: false,
        id: 0,
    };
    let z1 = Zone {
        name: String::from("Back"),
        gpio: 5,
        time: 300,
        enabled: true,
        auto_off: false,
        system_order: 1,
        state: false,
        id: 1,
    };
    cp.set_zone_list(&ip, Answer::Value(vec![z0, z1]));
    assert!(set_zone(ip.clone(), true, 1, &mut cp));
    match cp.zone_list(&ip) {
        Answer::Value(zs) => {
            assert!(!zs[0].state);
            assert!(zs[1].state);
        },
        other => panic!("expected the zone list, got {:?}", other),
    }
}

#[test]
fn set_zone_fails_on_an_unreachable_host() {
    let mut cp = ControlPlane::new();
    assert!(!set_zone(String::from("10.9.9.9"), true, 1, &mut cp));
}
