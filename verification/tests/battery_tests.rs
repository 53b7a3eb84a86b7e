use zmk_battery_monitor::battery::decode_descriptor_name;
use zmk_battery_monitor::battery::decode_level;
use zmk_battery_monitor::battery_probe_paths;
use zmk_battery_monitor::device_path_for;
use zmk_battery_monitor::find_battery_levels;
use zmk_battery_monitor::list_devices;
use zmk_battery_monitor::BatteryInfo;
use zmk_battery_monitor::GattReads;
use zmk_battery_monitor::Interface;
use zmk_battery_monitor::ManagedObjectTree;
use zmk_battery_monitor::ObjectEntry;
use zmk_battery_monitor::PropValue;
use zmk_battery_monitor::Property;
use zmk_battery_monitor::ReadEntry;
use zmk_battery_monitor::ReadOutcome;
use zmk_battery_monitor::TransportError;

const BATTERY_UUID: &str = "0000180f-0000-1000-8000-00805f9b34fb";
const BATTERY_LEVEL_UUID: &str = "00002a19-0000-1000-8000-00805f9b34fb";
const BATTERY_USER_DESC: &str = "00002901-0000-1000-8000-00805f9b34fb";

const DEV_PATH: &str = "/org/bluez/hci0/dev_AA_BB_CC_DD_EE_FF";

fn uuid_iface(iface_name: &str, uuid: &str) -> Interface {
    Interface {
        name: iface_name.to_string(),
        properties: vec![Property {
            name: "UUID".to_string(),
            value: PropValue::Text(uuid.to_string()),
        }],
    }
}

fn obj(path: &str, interfaces: Vec<Interface>) -> ObjectEntry {
    ObjectEntry {
        path: path.to_string(),
        interfaces,
    }
}

fn service_obj(path: &str) -> ObjectEntry {
    obj(path, vec![uuid_iface("org.bluez.GattService1", BATTERY_UUID)])
}

fn char_obj(path: &str) -> ObjectEntry {
    obj(
        path,
        vec![uuid_iface("org.bluez.GattCharacteristic1", BATTERY_LEVEL_UUID)],
    )
}

fn desc_obj(path: &str) -> ObjectEntry {
    obj(
        path,
        vec![uuid_iface("org.bluez.GattDescriptor1", BATTERY_USER_DESC)],
    )
}

fn value_read(path: &str, bytes: Vec<u8>) -> ReadEntry {
    ReadEntry {
        path: path.to_string(),
        outcome: ReadOutcome::Value(bytes),
    }
}

fn failed_read(path: &str) -> ReadEntry {
    ReadEntry {
        path: path.to_string(),
        outcome: ReadOutcome::Failure,
    }
}

fn pairs(batteries: &[BatteryInfo]) -> Vec<(String, u8)> {
    batteries
        .iter()
        .map(|b| (b.name.clone(), b.level))
        .collect()
}

#[test]
fn absent_device_returns_empty() {
    let tree = ManagedObjectTree {
        objects: vec![
            obj("/org/bluez/hci0", vec![]),
            service_obj("/org/bluez/hci0/dev_11_22_33_44_55_66/service1"),
        ],
    };
    let reads = GattReads { entries: vec![] };
    let result = find_battery_levels(&tree, &reads, "AA:BB:CC:DD:EE:FF");
    assert!(result.unwrap().is_empty());
}

#[test]
fn missing_descriptor_uses_placeholder_name() {
    let svc = format!("{DEV_PATH}/service1");
    let chr = format!("{svc}/char1");
    let tree = ManagedObjectTree {
        objects: vec![service_obj(&svc), char_obj(&chr)],
    };
    let reads = GattReads {
        entries: vec![value_read(&chr, vec![87])],
    };
    let result = find_battery_levels(&tree, &reads, "AA:BB:CC:DD:EE:FF").unwrap();
    assert_eq!(pairs(&result), vec![("Battery".to_string(), 87)]);
}

#[test]
fn empty_read_value_decodes_to_zero() {
    let svc = format!("{DEV_PATH}/service1");
    let chr = format!("{svc}/char1");
    let tree = ManagedObjectTree {
        objects: vec![service_obj(&svc), char_obj(&chr)],
    };
    let reads = GattReads {
        entries: vec![value_read(&chr, vec![])],
    };
    let result = find_battery_levels(&tree, &reads, "AA:BB:CC:DD:EE:FF").unwrap();
    assert_eq!(result.len(), 1);
    assert_eq!(result[0].level, 0);
}

#[test]
fn decode_level_takes_first_byte() {
    assert_eq!(decode_level(&vec![]), 0);
    assert_eq!(decode_level(&vec![55, 99]), 55);
}

#[test]
fn trailing_nuls_are_stripped_from_name() {
    assert_eq!(
        decode_descriptor_name(&b"Left\0\0".to_vec()),
        Some("Left".to_string())
    );
    assert_eq!(decode_descriptor_name(&b"AB".to_vec()), Some("AB".to_string()));
    assert_eq!(decode_descriptor_name(&vec![0xFF, 0x00]), None);
}

#[test]
fn lexical_prefix_matches_non_child_paths() {
    // The characteristic path extends the service path without a
    // separator; the scoping rule is a raw prefix test, so it must
    // still be treated as lying below the service.
    let svc = format!("{DEV_PATH}/service1");
    let chr = format!("{svc}0/char1");
    let tree = ManagedObjectTree {
        objects: vec![service_obj(&svc), char_obj(&chr)],
    };
    let reads = GattReads {
        entries: vec![value_read(&chr, vec![33])],
    };
    let result = find_battery_levels(&tree, &reads, "AA:BB:CC:DD:EE:FF").unwrap();
    assert_eq!(pairs(&result), vec![("Battery".to_string(), 33)]);
}

#[test]
fn address_separators_give_identical_device_path() {
    let with_colons = device_path_for("AA:BB:CC:DD:EE:FF");
    let with_hyphens = device_path_for("AA-BB-CC-DD-EE-FF");
    assert_eq!(with_colons, with_hyphens);
    assert_eq!(with_colons, DEV_PATH.to_string());
}

#[test]
fn end_to_end_scenario() {
    let svc = format!("{DEV_PATH}/svc0");
    let chr = format!("{svc}/char0");
    let dsc = format!("{chr}/desc0");
    let tree = ManagedObjectTree {
        objects: vec![
            obj(DEV_PATH, vec![]),
            service_obj(&svc),
            char_obj(&chr),
            desc_obj(&dsc),
        ],
    };
    let reads = GattReads {
        entries: vec![
            value_read(&chr, vec![42]),
            value_read(&dsc, b"Left\0\0".to_vec()),
        ],
    };
    let result = find_battery_levels(&tree, &reads, "AA:BB:CC:DD:EE:FF").unwrap();
    assert_eq!(pairs(&result), vec![("Left".to_string(), 42)]);
}

#[test]
fn two_services_yield_two_records() {
    let svc0 = format!("{DEV_PATH}/svc0");
    let chr0 = format!("{svc0}/char0");
    let svc1 = format!("{DEV_PATH}/svc1");
    let chr1 = format!("{svc1}/char0");
    let dsc1 = format!("{chr1}/desc0");
    let tree = ManagedObjectTree {
        objects: vec![
            service_obj(&svc0),
            char_obj(&chr0),
            service_obj(&svc1),
            char_obj(&chr1),
            desc_obj(&dsc1),
        ],
    };
    let reads = GattReads {
        entries: vec![
            value_read(&chr0, vec![10]),
            value_read(&chr1, vec![20]),
            value_read(&dsc1, b"Right".to_vec()),
        ],
    };
    let result = find_battery_levels(&tree, &reads, "AA:BB:CC:DD:EE:FF").unwrap();
    let mut got = pairs(&result);
    got.sort();
    let mut want = vec![("Battery".to_string(), 10), ("Right".to_string(), 20)];
    want.sort();
    assert_eq!(got, want);
}

#[test]
fn failed_mandatory_read_fails_whole_query() {
    let svc = format!("{DEV_PATH}/svc0");
    let chr = format!("{svc}/char0");
    let tree = ManagedObjectTree {
        objects: vec![service_obj(&svc), char_obj(&chr)],
    };
    let reads = GattReads {
        entries: vec![failed_read(&chr)],
    };
    let result = find_battery_levels(&tree, &reads, "AA:BB:CC:DD:EE:FF");
    assert_eq!(result.unwrap_err(), TransportError::ReadFailed);
}

#[test]
fn missing_mandatory_read_fails_whole_query() {
    let svc = format!("{DEV_PATH}/svc0");
    let chr = format!("{svc}/char0");
    let tree = ManagedObjectTree {
        objects: vec![service_obj(&svc), char_obj(&chr)],
    };
    let reads = GattReads { entries: vec![] };
    let result = find_battery_levels(&tree, &reads, "AA:BB:CC:DD:EE:FF");
    assert_eq!(result.unwrap_err(), TransportError::ReadFailed);
}

#[test]
fn descriptor_read_failure_falls_back_to_placeholder() {
    let svc = format!("{DEV_PATH}/svc0");
    let chr = format!("{svc}/char0");
    let dsc = format!("{chr}/desc0");
    let tree = ManagedObjectTree {
        objects: vec![service_obj(&svc), char_obj(&chr), desc_obj(&dsc)],
    };
    let reads = GattReads {
        entries: vec![value_read(&chr, vec![64]), failed_read(&dsc)],
    };
    let result = find_battery_levels(&tree, &reads, "AA:BB:CC:DD:EE:FF").unwrap();
    assert_eq!(pairs(&result), vec![("Battery".to_string(), 64)]);
}

#[test]
fn only_first_matching_characteristic_is_used() {
    let svc = format!("{DEV_PATH}/svc0");
    let chr0 = format!("{svc}/char0");
    let chr1 = format!("{svc}/char1");
    let tree = ManagedObjectTree {
        objects: vec![service_obj(&svc), char_obj(&chr0), char_obj(&chr1)],
    };
    let reads = GattReads {
        entries: vec![value_read(&chr0, vec![11]), value_read(&chr1, vec![22])],
    };
    let result = find_battery_levels(&tree, &reads, "AA:BB:CC:DD:EE:FF").unwrap();
    assert_eq!(pairs(&result), vec![("Battery".to_string(), 11)]);
}

#[test]
fn probe_paths_plan_mandatory_and_best_effort_reads() {
    let svc = format!("{DEV_PATH}/svc0");
    let chr = format!("{svc}/char0");
    let dsc = format!("{chr}/desc0");
    let bare_svc = format!("{DEV_PATH}/svc1");
    let bare_chr = format!("{bare_svc}/char0");
    let tree = ManagedObjectTree {
        objects: vec![
            service_obj(&svc),
            char_obj(&chr),
            desc_obj(&dsc),
            service_obj(&bare_svc),
            char_obj(&bare_chr),
        ],
    };
    let probes = battery_probe_paths(&tree, "AA:BB:CC:DD:EE:FF");
    assert_eq!(probes.len(), 2);
    assert_eq!(probes[0].char_path, chr);
    assert_eq!(probes[0].desc_path, Some(dsc));
    assert_eq!(probes[1].char_path, bare_chr);
    assert_eq!(probes[1].desc_path, None);
}

#[test]
fn list_devices_returns_named_addressed_objects() {
    let device_iface = |name: &str, address: &str| Interface {
        name: "org.bluez.Device1".to_string(),
        properties: vec![
            Property {
                name: "Name".to_string(),
                value: PropValue::Text(name.to_string()),
            },
            Property {
                name: "Address".to_string(),
                value: PropValue::Text(address.to_string()),
            },
        ],
    };
    let nameless = Interface {
        name: "org.bluez.Device1".to_string(),
        properties: vec![Property {
            name: "Address".to_string(),
            value: PropValue::Text("77:88:99:AA:BB:CC".to_string()),
        }],
    };
    let tree = ManagedObjectTree {
        objects: vec![
            obj(
                "/org/bluez/hci0/dev_11",
                vec![device_iface("Keyboard", "11:22:33:44:55:66")],
            ),
            obj("/org/bluez/hci0/dev_77", vec![nameless]),
            obj(
                "/org/bluez/hci0/dev_AA",
                vec![device_iface("Mouse", "AA:BB:CC:DD:EE:FF")],
            ),
        ],
    };
    let devices = list_devices(&tree);
    assert_eq!(
        devices,
        vec![
            ("Keyboard".to_string(), "11:22:33:44:55:66".to_string()),
            ("Mouse".to_string(), "AA:BB:CC:DD:EE:FF".to_string()),
        ]
    );
}

#[test]
fn non_text_uuid_is_not_a_match() {
    let svc = format!("{DEV_PATH}/svc0");
    let bytes_uuid = Interface {
        name: "org.bluez.GattService1".to_string(),
        properties: vec![Property {
            name: "UUID".to_string(),
            value: PropValue::Bytes(b"0000180f".to_vec()),
        }],
    };
    let tree = ManagedObjectTree {
        objects: vec![obj(&svc, vec![bytes_uuid])],
    };
    let reads = GattReads { entries: vec![] };
    let result = find_battery_levels(&tree, &reads, "AA:BB:CC:DD:EE:FF");
    assert!(result.unwrap().is_empty());
}
