//! The observation records produced by one scan cycle.

use vstd::prelude::*;

verus! {

/// Physical-layer wireless generation of an access point, classified from the
/// capability banners in its scan block, newest class first; `Legacy` stands
/// for anything that matched no banner.
#[derive(Clone, Copy, Debug, PartialEq, Eq, Structural)]
pub enum PhyType {
    UHR,
    EHT,
    HE,
    VHT,
    HT,
    Legacy,
}

/// One WiFi access point as seen in a single scan pass.
///
/// Fields that the scan text did not supply keep their type-appropriate
/// default: `None` for the optional fields, `0` for `frequency` and `rssi`,
/// `Legacy` for `phy`.
#[derive(Clone, Debug, PartialEq)]
pub struct WifiBssid {
    /// Decoded network name, absent when hidden or unusable.
    pub ssid: Option<String>,
    /// MAC-like identifier of the access point's radio.
    pub bssid: String,
    /// Milliseconds since the access point was last seen.
    pub age: Option<u64>,
    /// Primary channel number.
    pub channel: Option<u8>,
    /// Carrier frequency in MHz.
    pub frequency: u16,
    /// Physical-layer classification.
    pub phy: PhyType,
    /// Signal strength in dBm.
    pub rssi: i32,
}

/// Mathematical model of a [`WifiBssid`]: the text fields as character
/// sequences, everything else as-is.
pub struct WifiBssidModel {
    pub ssid: Option<Seq<char>>,
    pub bssid: Seq<char>,
    pub age: Option<u64>,
    pub channel: Option<u8>,
    pub frequency: u16,
    pub phy: PhyType,
    pub rssi: i32,
}

impl View for WifiBssid {
    type V = WifiBssidModel;

    open spec fn view(&self) -> WifiBssidModel {
        WifiBssidModel {
            ssid: match self.ssid {
                Some(s) => Some(s@),
                None => None,
            },
            bssid: self.bssid@,
            age: self.age,
            channel: self.channel,
            frequency: self.frequency,
            phy: self.phy,
            rssi: self.rssi,
        }
    }
}

impl DeepView for WifiBssid {
    type V = WifiBssidModel;

    open spec fn deep_view(&self) -> WifiBssidModel {
        self.view()
    }
}

/// One short-range wireless device as seen in a single discovery snapshot.
#[derive(Clone, Debug, PartialEq)]
pub struct BleBeacon {
    /// Device identifier.
    pub address: String,
    /// Reported signal strength in dBm, `-100` when the device reported none.
    pub rssi: i32,
    /// Advertised name, present only when non-empty.
    pub name: Option<String>,
}

/// Mathematical model of a [`BleBeacon`].
pub struct BleBeaconModel {
    pub address: Seq<char>,
    pub rssi: i32,
    pub name: Option<Seq<char>>,
}

impl View for BleBeacon {
    type V = BleBeaconModel;

    open spec fn view(&self) -> BleBeaconModel {
        BleBeaconModel {
            address: self.address@,
            rssi: self.rssi,
            name: match self.name {
                Some(n) => Some(n@),
                None => None,
            },
        }
    }
}

impl DeepView for BleBeacon {
    type V = BleBeaconModel;

    open spec fn deep_view(&self) -> BleBeaconModel {
        self.view()
    }
}

} // verus!
