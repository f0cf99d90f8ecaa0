//! Radio-environment sampling core: parsing of WiFi scan-tool output,
//! SSID sanitization, beacon snapshot normalization, geolocation payload
//! assembly, and submission-outcome classification.

pub mod observations;
pub mod text;
pub mod num;
pub mod ssid;
pub mod matchers;
pub mod scan;
pub mod beacons;
pub mod assemble;
pub mod submit;
pub mod identity;
pub mod mdns;
pub mod gatt;
pub mod wire;

pub use observations::{BleBeacon, PhyType, WifiBssid};
