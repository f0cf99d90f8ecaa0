//! Payload assembly: the pure merge of a position fix, the WiFi
//! observations, and the beacon observations into one submission record.

use vstd::prelude::*;
use crate::observations::{WifiBssid, BleBeacon, WifiBssidModel, BleBeaconModel};

verus! {

/// A position fix in fixed-point units: coordinates in ten-millionths of a
/// degree, the remaining measures in hundredths of their unit (meters,
/// degrees, meters per second), and a source tag.
#[derive(Clone, Debug)]
pub struct PositionFix {
    /// Latitude in degrees, scaled by ten million.
    pub latitude_e7: i64,
    /// Longitude in degrees, scaled by ten million.
    pub longitude_e7: i64,
    /// Accuracy radius in centimeters.
    pub accuracy_e2: i64,
    /// Altitude in centimeters.
    pub altitude_e2: i64,
    /// Altitude accuracy in centimeters.
    pub altitude_accuracy_e2: i64,
    /// Heading in hundredths of a degree.
    pub heading_e2: i64,
    /// Speed in hundredths of a meter per second.
    pub speed_e2: i64,
    /// Where the fix came from.
    pub source: String,
}

/// Mathematical model of a [`PositionFix`].
pub struct PositionFixModel {
    pub latitude_e7: i64,
    pub longitude_e7: i64,
    pub accuracy_e2: i64,
    pub altitude_e2: i64,
    pub altitude_accuracy_e2: i64,
    pub heading_e2: i64,
    pub speed_e2: i64,
    pub source: Seq<char>,
}

impl View for PositionFix {
    type V = PositionFixModel;

    open spec fn view(&self) -> PositionFixModel {
        PositionFixModel {
            latitude_e7: self.latitude_e7,
            longitude_e7: self.longitude_e7,
            accuracy_e2: self.accuracy_e2,
            altitude_e2: self.altitude_e2,
            altitude_accuracy_e2: self.altitude_accuracy_e2,
            heading_e2: self.heading_e2,
            speed_e2: self.speed_e2,
            source: self.source@,
        }
    }
}

/// One assembled submission record: a timestamp, one position fix, and the
/// two observation lists, each always materialized, possibly empty, never
/// absent.
#[derive(Debug)]
pub struct GeoSubmission {
    /// Milliseconds since the epoch, captured by the caller at assembly
    /// time.
    pub timestamp_ms: u64,
    pub position: PositionFix,
    pub wifi: Vec<WifiBssid>,
    pub beacons: Vec<BleBeacon>,
}

/// Mathematical model of a [`GeoSubmission`].
pub struct GeoSubmissionModel {
    pub timestamp_ms: u64,
    pub position: PositionFixModel,
    pub wifi: Seq<WifiBssidModel>,
    pub beacons: Seq<BleBeaconModel>,
}

impl View for GeoSubmission {
    type V = GeoSubmissionModel;

    open spec fn view(&self) -> GeoSubmissionModel {
        GeoSubmissionModel {
            timestamp_ms: self.timestamp_ms,
            position: self.position@,
            wifi: self.wifi.deep_view(),
            beacons: self.beacons.deep_view(),
        }
    }
}

/// Merges one scan cycle's results into a submission record: a pure merge,
/// nothing reordered, nothing dropped, nothing added. The caller reads the
/// clock and supplies the timestamp.
pub fn assemble(
    timestamp_ms: u64,
    position: PositionFix,
    wifi: Vec<WifiBssid>,
    beacons: Vec<BleBeacon>,
) -> (r: GeoSubmission)
    ensures
        r.timestamp_ms == timestamp_ms,
        r.position == position,
        r.wifi == wifi,
        r.beacons == beacons,
{
    GeoSubmission { timestamp_ms, position, wifi, beacons }
}

} // verus!
