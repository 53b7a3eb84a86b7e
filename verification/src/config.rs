//! Configuration records: which devices to poll, how often, and how the
//! tray presents the result. Reading and writing the configuration file
//! is left to the surrounding program; the library only defines the
//! records, their defaults and the queries over them.

use vstd::prelude::*;

verus! {

/// General settings.
#[derive(Debug, Clone)]
pub struct GeneralConfig {
    pub update_interval: u64,
    pub log_level: String,
}

/// One keyboard to poll.
#[derive(Debug, Clone)]
pub struct DeviceConfig {
    pub name: String,
    pub address: String,
    pub enabled: bool,
    pub low_battery_threshold: u8,
}

/// Tray settings.
#[derive(Debug, Clone)]
pub struct TrayConfig {
    pub enabled: bool,
    pub show_percentage_in_tray: bool,
    pub icon_theme: String,
}

/// The whole configuration.
#[derive(Debug, Clone)]
pub struct Config {
    pub general: GeneralConfig,
    pub devices: Vec<DeviceConfig>,
    pub tray: TrayConfig,
}

/// Default update interval, in seconds.
pub fn default_update_interval() -> (r: u64)
    ensures
        r == 60,
{
    60
}

/// Default log level.
pub fn default_log_level() -> (r: String)
    ensures
        r@ == "info"@,
{
    "info".to_owned()
}

/// Default for settings that are on unless switched off.
pub fn default_true() -> (r: bool)
    ensures
        r,
{
    true
}

/// Default for settings that are off unless switched on.
pub fn default_false() -> (r: bool)
    ensures
        !r,
{
    false
}

/// Default low-battery threshold, as a percentage.
pub fn default_low_battery_threshold() -> (r: u8)
    ensures
        r == 20,
{
    20
}

/// Default tray icon name.
pub fn default_icon_theme() -> (r: String)
    ensures
        r@ == "battery"@,
{
    "battery".to_owned()
}

/// The default general settings.
pub open spec fn is_default_general(g: GeneralConfig) -> bool {
    &&& g.update_interval == 60
    &&& g.log_level@ == "info"@
}

/// The default tray settings.
pub open spec fn is_default_tray(t: TrayConfig) -> bool {
    &&& t.enabled
    &&& !t.show_percentage_in_tray
    &&& t.icon_theme@ == "battery"@
}

impl Default for GeneralConfig {
    fn default() -> (r: GeneralConfig)
        ensures
            is_default_general(r),
    {
        GeneralConfig { update_interval: default_update_interval(), log_level: default_log_level() }
    }
}

impl Default for TrayConfig {
    fn default() -> (r: TrayConfig)
        ensures
            is_default_tray(r),
    {
        TrayConfig {
            enabled: default_true(),
            show_percentage_in_tray: default_false(),
            icon_theme: default_icon_theme(),
        }
    }
}

impl Default for Config {
    fn default() -> (r: Config)
        ensures
            is_default_general(r.general),
            is_default_tray(r.tray),
            r.devices@.len() == 0,
    {
        Config {
            general: GeneralConfig::default(),
            devices: Vec::new(),
            tray: TrayConfig::default(),
        }
    }
}

/// Index of the first enabled device at or after position `i`.
pub open spec fn first_enabled_index(devices: Seq<DeviceConfig>, i: int) -> Option<int>
    decreases devices.len() - i,
{
    if i < 0 || i >= devices.len() {
        None
    } else if devices[i].enabled {
        Some(i)
    } else {
        first_enabled_index(devices, i + 1)
    }
}

/// The devices as plain values behind a sequence of borrows.
pub open spec fn deref_view(s: Seq<&DeviceConfig>) -> Seq<DeviceConfig> {
    s.map_values(|d: &DeviceConfig| *d)
}

impl Config {
    /// A default configuration with an example device and one real one.
    pub fn default_with_example() -> (r: Config)
        ensures
            is_default_general(r.general),
            is_default_tray(r.tray),
            r.devices@.len() == 2,
            r.devices@[0].name@ == "Example Keyboard"@,
            r.devices@[0].address@ == "00:00:00:00:00:00"@,
            !r.devices@[0].enabled,
            r.devices@[0].low_battery_threshold == 20,
            r.devices@[1].name@ == "Krypton-KBD"@,
            r.devices@[1].address@ == "D2:75:8A:E6:6A:FD"@,
            r.devices@[1].enabled,
            r.devices@[1].low_battery_threshold == 20,
    {
        let mut devices: Vec<DeviceConfig> = Vec::new();
        devices.push(
            DeviceConfig {
                name: "Example Keyboard".to_owned(),
                address: "00:00:00:00:00:00".to_owned(),
                enabled: false,
                low_battery_threshold: 20,
            },
        );
        devices.push(
            DeviceConfig {
                name: "Krypton-KBD".to_owned(),
                address: "D2:75:8A:E6:6A:FD".to_owned(),
                enabled: true,
                low_battery_threshold: 20,
            },
        );
        Config { general: GeneralConfig::default(), devices, tray: TrayConfig::default() }
    }

    /// The first enabled device, if any.
    pub fn get_primary_device(&self) -> (r: Option<&DeviceConfig>)
        ensures
            match first_enabled_index(self.devices@, 0) {
                Some(j) => r matches Some(d) && *d == self.devices@[j],
                None => r is None,
            },
    {
        let mut i: usize = 0;
        while i < self.devices.len()
            invariant
                i <= self.devices@.len(),
                first_enabled_index(self.devices@, 0) == first_enabled_index(
                    self.devices@,
                    i as int,
                ),
            decreases self.devices@.len() - i,
        {
            if self.devices[i].enabled {
                return Some(&self.devices[i]);
            }
            i = i + 1;
        }
        None
    }

    /// All enabled devices, in configuration order.
    pub fn get_enabled_devices(&self) -> (r: Vec<&DeviceConfig>)
        ensures
            deref_view(r@) == self.devices@.filter(|d: DeviceConfig| d.enabled),
    {
        let mut out: Vec<&DeviceConfig> = Vec::new();
        proof {
            reveal(Seq::filter);
            assert(deref_view(out@) =~= self.devices@.take(0).filter(
                |d: DeviceConfig| d.enabled,
            ));
        }
        let mut i: usize = 0;
        while i < self.devices.len()
            invariant
                i <= self.devices@.len(),
                deref_view(out@) == self.devices@.take(i as int).filter(
                    |d: DeviceConfig| d.enabled,
                ),
            decreases self.devices@.len() - i,
        {
            let ghost prev = out@;
            if self.devices[i].enabled {
                out.push(&self.devices[i]);
            }
            proof {
                reveal(Seq::filter);
                assert(self.devices@.take(i + 1 as int).drop_last() =~= self.devices@.take(
                    i as int,
                ));
                assert(self.devices@.take(i + 1 as int).last() == self.devices@[i as int]);
                if self.devices@[i as int].enabled {
                    assert(deref_view(out@) =~= deref_view(prev).push(self.devices@[i as int]));
                }
                assert(deref_view(out@) =~= self.devices@.take(i + 1 as int).filter(
                    |d: DeviceConfig| d.enabled,
                ));
            }
            i = i + 1;
        }
        proof {
            assert(self.devices@.take(self.devices@.len() as int) =~= self.devices@);
        }
        out
    }

    /// The text of a template configuration file.
    pub open spec fn template_text() -> Seq<char> {
        "# ZMK Battery Monitor Configuration

[general]
# Update interval in seconds
update_interval = 60
# Log level: trace, debug, info, warn, error
log_level = \"info\"

# Define your keyboards here
# You can have multiple devices and enable/disable them individually

[[devices]]
name = \"My ZMK Keyboard\"
address = \"00:00:00:00:00:00\"  # Replace with your keyboard's MAC address
enabled = true
low_battery_threshold = 20

# Example of a second keyboard (disabled)
# [[devices]]
# name = \"Second Keyboard\"
# address = \"11:11:11:11:11:11\"
# enabled = false
# low_battery_threshold = 15

[tray]
enabled = true
show_percentage_in_tray = false
icon_theme = \"battery\"  # Icon name for system tray
"@
    }

    /// Generates a template configuration file.
    pub fn generate_template() -> (r: String)
        ensures
            r@ == Config::template_text(),
    {
        let template: &str = "# ZMK Battery Monitor Configuration

[general]
# Update interval in seconds
update_interval = 60
# Log level: trace, debug, info, warn, error
log_level = \"info\"

# Define your keyboards here
# You can have multiple devices and enable/disable them individually

[[devices]]
name = \"My ZMK Keyboard\"
address = \"00:00:00:00:00:00\"  # Replace with your keyboard's MAC address
enabled = true
low_battery_threshold = 20

# Example of a second keyboard (disabled)
# [[devices]]
# name = \"Second Keyboard\"
# address = \"11:11:11:11:11:11\"
# enabled = false
# low_battery_threshold = 15

[tray]
enabled = true
show_percentage_in_tray = false
icon_theme = \"battery\"  # Icon name for system tray
";
        template.to_owned()
    }
}

} // verus!
