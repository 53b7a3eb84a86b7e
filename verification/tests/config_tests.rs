use zmk_battery_monitor::Config;
use zmk_battery_monitor::DeviceConfig;
use zmk_battery_monitor::GeneralConfig;
use zmk_battery_monitor::TrayConfig;

fn device(name: &str, enabled: bool) -> DeviceConfig {
    DeviceConfig {
        name: name.to_string(),
        address: "00:11:22:33:44:55".to_string(),
        enabled,
        low_battery_threshold: 20,
    }
}

#[test]
fn general_defaults() {
    let g = GeneralConfig::default();
    assert_eq!(g.update_interval, 60);
    assert_eq!(g.log_level, "info".to_string());
}

#[test]
fn tray_defaults() {
    let t = TrayConfig::default();
    assert!(t.enabled);
    assert!(!t.show_percentage_in_tray);
    assert_eq!(t.icon_theme, "battery".to_string());
}

#[test]
fn config_default_has_no_devices() {
    let c = Config::default();
    assert!(c.devices.is_empty());
    assert_eq!(c.general.update_interval, 60);
    assert!(c.tray.enabled);
}

#[test]
fn default_with_example_devices() {
    let c = Config::default_with_example();
    assert_eq!(c.devices.len(), 2);
    assert_eq!(c.devices[0].name, "Example Keyboard".to_string());
    assert_eq!(c.devices[0].address, "00:00:00:00:00:00".to_string());
    assert!(!c.devices[0].enabled);
    assert_eq!(c.devices[0].low_battery_threshold, 20);
    assert_eq!(c.devices[1].name, "Krypton-KBD".to_string());
    assert_eq!(c.devices[1].address, "D2:75:8A:E6:6A:FD".to_string());
    assert!(c.devices[1].enabled);
}

#[test]
fn primary_device_is_first_enabled() {
    let c = Config {
        general: GeneralConfig::default(),
        devices: vec![
            device("off", false),
            device("first-on", true),
            device("second-on", true),
        ],
        tray: TrayConfig::default(),
    };
    let primary = c.get_primary_device().unwrap();
    assert_eq!(primary.name, "first-on".to_string());
}

#[test]
fn no_enabled_device_means_no_primary() {
    let c = Config {
        general: GeneralConfig::default(),
        devices: vec![device("off", false)],
        tray: TrayConfig::default(),
    };
    assert!(c.get_primary_device().is_none());
}

#[test]
fn enabled_devices_keep_configuration_order() {
    let c = Config {
        general: GeneralConfig::default(),
        devices: vec![
            device("a", true),
            device("b", false),
            device("c", true),
        ],
        tray: TrayConfig::default(),
    };
    let enabled = c.get_enabled_devices();
    let names: Vec<String> = enabled.iter().map(|d| d.name.clone()).collect();
    assert_eq!(names, vec!["a".to_string(), "c".to_string()]);
}

#[test]
fn template_is_a_complete_example() {
    let t = Config::generate_template();
    assert!(t.starts_with("# ZMK Battery Monitor Configuration"));
    assert!(t.contains("[general]"));
    assert!(t.contains("update_interval = 60"));
    assert!(t.contains("[[devices]]"));
    assert!(t.contains("low_battery_threshold = 20"));
    assert!(t.contains("[tray]"));
    assert!(t.ends_with("\n"));
}
