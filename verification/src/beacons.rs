//! Beacon snapshot normalization: one discovery pass over nearby
//! short-range wireless devices, every failure mode degrading to an empty
//! result rather than an error.

use vstd::prelude::*;
use crate::observations::{BleBeacon, BleBeaconModel};

verus! {

/// What the radio reported for one device whose properties could be read:
/// the device identifier, the signal strength if one was reported, and the
/// advertised name if one was read.
#[derive(Clone, Debug)]
pub struct RawPeripheral {
    pub address: String,
    pub rssi: Option<i16>,
    pub name: Option<String>,
}

/// Mathematical model of a [`RawPeripheral`].
pub struct RawPeripheralModel {
    pub address: Seq<char>,
    pub rssi: Option<i16>,
    pub name: Option<Seq<char>>,
}

impl View for RawPeripheral {
    type V = RawPeripheralModel;

    open spec fn view(&self) -> RawPeripheralModel {
        RawPeripheralModel {
            address: self.address@,
            rssi: self.rssi,
            name: match self.name {
                Some(n) => Some(n@),
                None => None,
            },
        }
    }
}

impl DeepView for RawPeripheral {
    type V = RawPeripheralModel;

    open spec fn deep_view(&self) -> RawPeripheralModel {
        self.view()
    }
}

/// How one discovery pass went: each failure mode the radio access can hit,
/// or the devices whose properties could be read.
#[derive(Debug)]
pub enum DiscoveryAttempt {
    /// The radio manager could not be acquired.
    ManagerUnavailable,
    /// No adapter was available.
    AdapterMissing,
    /// The scan-start request was rejected.
    ScanRejected,
    /// The scan ran; these are the devices with retrievable properties.
    Discovered(Vec<RawPeripheral>),
}

/// Mathematical model of a [`DiscoveryAttempt`].
pub enum DiscoveryAttemptModel {
    ManagerUnavailable,
    AdapterMissing,
    ScanRejected,
    Discovered(Seq<RawPeripheralModel>),
}

impl View for DiscoveryAttempt {
    type V = DiscoveryAttemptModel;

    open spec fn view(&self) -> DiscoveryAttemptModel {
        match self {
            DiscoveryAttempt::ManagerUnavailable => DiscoveryAttemptModel::ManagerUnavailable,
            DiscoveryAttempt::AdapterMissing => DiscoveryAttemptModel::AdapterMissing,
            DiscoveryAttempt::ScanRejected => DiscoveryAttemptModel::ScanRejected,
            DiscoveryAttempt::Discovered(ps) => DiscoveryAttemptModel::Discovered(ps.deep_view()),
        }
    }
}

/// The observation one reported device normalizes to: its address, its
/// signal strength or `-100` when none was reported, and its name only when
/// it is non-empty.
pub open spec fn beacon_of(p: RawPeripheralModel) -> BleBeaconModel {
    BleBeaconModel {
        address: p.address,
        rssi: match p.rssi {
            Some(v) => v as i32,
            None => -100i32,
        },
        name: match p.name {
            Some(n) => if n.len() > 0 {
                Some(n)
            } else {
                None
            },
            None => None,
        },
    }
}

/// The beacons one discovery pass yields: one per reported device, in
/// report order; every failure mode yields none.
pub open spec fn snapshot_model(attempt: DiscoveryAttemptModel) -> Seq<BleBeaconModel> {
    match attempt {
        DiscoveryAttemptModel::Discovered(ps) => ps.map(|i: int, p: RawPeripheralModel| beacon_of(p)),
        _ => Seq::empty(),
    }
}

/// Normalizes one discovery pass into its beacon observations. A failed
/// pass — no manager, no adapter, or a rejected scan request — degrades to
/// an empty list and never to an error.
#[verifier::loop_isolation(false)]
pub fn snapshot_beacons(attempt: DiscoveryAttempt) -> (r: Vec<BleBeacon>)
    ensures
        r.deep_view() == snapshot_model(attempt@),
        !(attempt@ is Discovered) ==> r@.len() == 0,
{
    let ghost av = attempt@;
    match attempt {
        DiscoveryAttempt::Discovered(ps) => {
            let ghost pv = ps.deep_view();
            proof {
                assert(av == DiscoveryAttemptModel::Discovered(pv));
            }
            let ghost f = |i: int, p: RawPeripheralModel| beacon_of(p);
            let mut r: Vec<BleBeacon> = Vec::new();
            let mut i: usize = 0;
            proof {
                assert(r.deep_view() =~= pv.subrange(0, 0).map(f));
            }
            while i < ps.len()
                invariant
                    i <= ps@.len(),
                    pv == ps.deep_view(),
                    r.deep_view() == pv.subrange(0, i as int).map(f),
                decreases ps@.len() - i,
            {
                let p = &ps[i];
                let rssi: i32 = match p.rssi {
                    Some(v) => v as i32,
                    None => -100,
                };
                let name: Option<String> = match &p.name {
                    Some(n) => {
                        if n.as_str().is_empty() {
                            None
                        } else {
                            Some(n.clone())
                        }
                    },
                    None => None,
                };
                let b = BleBeacon { address: p.address.clone(), rssi: rssi, name: name };
                let ghost prev = r.deep_view();
                proof {
                    assert(b@ == beacon_of(pv[i as int]));
                }
                r.push(b);
                proof {
                    assert(r.deep_view() =~= prev.push(beacon_of(pv[i as int])));
                    assert(pv.subrange(0, i + 1 as int).map(f) =~= pv.subrange(0, i as int).map(
                        f,
                    ).push(beacon_of(pv[i as int])));
                }
                i = i + 1;
            }
            proof {
                assert(pv.subrange(0, pv.len() as int) =~= pv);
                assert(r.deep_view() =~= snapshot_model(av));
            }
            r
        },
        _ => {
            let r: Vec<BleBeacon> = Vec::new();
            proof {
                assert(r.deep_view() =~= Seq::<BleBeaconModel>::empty());
                assert(r.deep_view() =~= snapshot_model(av));
            }
            r
        },
    }
}

} // verus!
