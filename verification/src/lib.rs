//! Battery monitor for ZMK-firmware keyboards.
//!
//! The library is the verified core: a model of the Bluetooth daemon's
//! managed-object snapshot, the GATT traversal that locates a device's
//! battery service, characteristic and descriptor, the decoding of read
//! values, and the configuration records. Talking to the system bus, the
//! tray icon and the configuration file on disk are left to the
//! surrounding program, which hands the library plain values.

pub mod battery;
pub mod config;
mod strings;
pub mod tree;

pub use battery::BatteryInfo;
pub use battery::BatteryProbe;
pub use battery::GattReads;
pub use battery::ReadEntry;
pub use battery::ReadOutcome;
pub use battery::TransportError;
pub use battery::battery_probe_paths;
pub use battery::device_path_for;
pub use battery::find_battery_levels;
pub use config::Config;
pub use config::DeviceConfig;
pub use config::GeneralConfig;
pub use config::TrayConfig;
pub use tree::Interface;
pub use tree::ManagedObjectTree;
pub use tree::ObjectEntry;
pub use tree::PropValue;
pub use tree::Property;
pub use tree::list_devices;
