//! The scan-text parser: a line-oriented state machine holding at most one
//! partially built observation, flushed when the next access-point header
//! arrives and once more at end of input.

use vstd::prelude::*;
use crate::observations::{PhyType, WifiBssid, WifiBssidModel};
use crate::ssid::{
    ssid_verdict, verdict_name, SsidVerdict, SsidVerdictModel, SsidFault, SsidFaultModel,
};
use crate::matchers::{
    bss_capture, ssid_capture, freq_capture, channel_capture, signal_result, last_seen_capture,
    phy_of_line, match_bss, match_ssid, match_freq, match_channel, match_signal, match_last_seen,
    classify_phy,
};
use crate::num::{freq_val, channel_val, age_val, parse_freq, parse_channel, parse_signal,
    parse_age};
use crate::text::{lines_of, chars_of, split_lines, string_of_range};
use crate::ssid::sanitize_capture;

verus! {

/// The parser's state between lines.
pub struct ScanState {
    /// Observations already flushed, in source order.
    pub done: Seq<WifiBssidModel>,
    /// Integrity faults reported by SSID sanitization, in source order.
    pub faults: Seq<SsidFaultModel>,
    /// The observation of the block currently open, if one is.
    pub cur: Option<WifiBssidModel>,
    /// The open observation hit an integrity fault and is to be skipped.
    pub cur_bad: bool,
}

/// The state ahead of the first line.
pub open spec fn initial_state() -> ScanState {
    ScanState { done: Seq::empty(), faults: Seq::empty(), cur: None, cur_bad: false }
}

/// Closes the open block, appending its observation unless it was poisoned.
pub open spec fn flush(st: ScanState) -> ScanState {
    match st.cur {
        Some(c) => ScanState {
            done: if st.cur_bad {
                st.done
            } else {
                st.done.push(c)
            },
            faults: st.faults,
            cur: None,
            cur_bad: false,
        },
        None => st,
    }
}

/// A freshly opened observation: only the header's address is known, every
/// other field holds its default.
pub open spec fn fresh_observation(bssid: Seq<char>) -> WifiBssidModel {
    WifiBssidModel {
        ssid: None,
        bssid: bssid,
        age: None,
        channel: None,
        frequency: 0,
        phy: PhyType::Legacy,
        rssi: 0,
    }
}

/// One line of an open block carrying an SSID capture: the sanitizer's
/// verdict either names the network (or hides it), or poisons the
/// observation and records the fault.
pub open spec fn ssid_step(st: ScanState, c: WifiBssidModel, capture: Seq<char>) -> ScanState {
    match ssid_verdict(capture) {
        SsidVerdictModel::Failed(kind, raw) => ScanState {
            done: st.done,
            faults: st.faults.push(SsidFaultModel { kind, raw }),
            cur: Some(c),
            cur_bad: true,
        },
        v => ScanState {
            done: st.done,
            faults: st.faults,
            cur: Some(WifiBssidModel { ssid: verdict_name(v), ..c }),
            cur_bad: st.cur_bad,
        },
    }
}

/// The parser's step for one line. An access-point header flushes the open
/// block and opens a new one. Inside an open block the tracked fields are
/// tried in fixed priority order — SSID, frequency, primary channel, signal
/// strength, last-seen age — and the first match updates its field; every
/// other line overwrites the physical-layer classification with its banner
/// class, or with `Legacy` when it carries no banner. Lines outside any
/// block are ignored.
pub open spec fn line_step(st: ScanState, l: Seq<char>) -> ScanState {
    match bss_capture(l) {
        Some(mac) => {
            let f = flush(st);
            ScanState {
                done: f.done,
                faults: f.faults,
                cur: Some(fresh_observation(mac)),
                cur_bad: false,
            }
        },
        None => match st.cur {
            Some(c) => {
                match ssid_capture(l) {
                    Some(cap) => ssid_step(st, c, cap),
                    None => match freq_capture(l) {
                        Some(cap) => ScanState {
                            cur: Some(WifiBssidModel { frequency: freq_val(cap), ..c }),
                            ..st
                        },
                        None => match channel_capture(l) {
                            Some(cap) => ScanState {
                                cur: Some(WifiBssidModel { channel: channel_val(cap), ..c }),
                                ..st
                            },
                            None => match signal_result(l) {
                                Some(v) => ScanState {
                                    cur: Some(WifiBssidModel { rssi: v, ..c }),
                                    ..st
                                },
                                None => match last_seen_capture(l) {
                                    Some(cap) => ScanState {
                                        cur: Some(
                                            WifiBssidModel { age: Some(age_val(cap)), ..c },
                                        ),
                                        ..st
                                    },
                                    None => ScanState {
                                        cur: Some(
                                            WifiBssidModel { phy: phy_of_line(l), ..c },
                                        ),
                                        ..st
                                    },
                                },
                            },
                        },
                    },
                }
            },
            None => st,
        },
    }
}

/// Runs the parser over a sequence of lines.
pub open spec fn scan_lines(st: ScanState, lines: Seq<Seq<char>>) -> ScanState
    decreases lines.len(),
{
    if lines.len() == 0 {
        st
    } else {
        scan_lines(line_step(st, lines[0]), lines.drop_first())
    }
}

/// The parser's final state for a whole scan text: every line processed and
/// the last open block flushed.
pub open spec fn scan_final(text: Seq<char>) -> ScanState {
    flush(scan_lines(initial_state(), lines_of(text)))
}

/// The observations the parser yields for a scan text, in source order.
pub open spec fn scan_observations(text: Seq<char>) -> Seq<WifiBssidModel> {
    scan_final(text).done
}

/// The integrity faults the parser reports for a scan text, in source order.
pub open spec fn scan_faults(text: Seq<char>) -> Seq<SsidFaultModel> {
    scan_final(text).faults
}

/// The number of access-point header lines in a line sequence.
pub open spec fn header_count(lines: Seq<Seq<char>>) -> nat
    decreases lines.len(),
{
    if lines.len() == 0 {
        0
    } else {
        (if bss_capture(lines[0]) is Some {
            1nat
        } else {
            0nat
        }) + header_count(lines.drop_first())
    }
}

/// The observations a state will have contributed once flushed: those
/// already done, plus the open one unless it is poisoned.
pub open spec fn occupancy(st: ScanState) -> nat {
    st.done.len() + (match st.cur {
        Some(_) => if st.cur_bad {
            0nat
        } else {
            1nat
        },
        None => 0nat,
    })
}

proof fn lemma_step_occupancy(st: ScanState, l: Seq<char>)
    ensures
        line_step(st, l).faults.len() >= st.faults.len(),
        occupancy(line_step(st, l)) as int >= occupancy(st) as int + (if bss_capture(
            l,
        ) is Some {
            1int
        } else {
            0int
        }) - (line_step(st, l).faults.len() - st.faults.len()),
        occupancy(line_step(st, l)) as int <= occupancy(st) as int + (if bss_capture(
            l,
        ) is Some {
            1int
        } else {
            0int
        }),
{
}

proof fn lemma_scan_lines_occupancy(st: ScanState, lines: Seq<Seq<char>>)
    ensures
        scan_lines(st, lines).faults.len() >= st.faults.len(),
        occupancy(scan_lines(st, lines)) as int >= occupancy(st) as int + header_count(lines)
            - (scan_lines(st, lines).faults.len() - st.faults.len()),
        occupancy(scan_lines(st, lines)) as int <= occupancy(st) as int + header_count(lines),
    decreases lines.len(),
{
    if lines.len() > 0 {
        lemma_step_occupancy(st, lines[0]);
        lemma_scan_lines_occupancy(line_step(st, lines[0]), lines.drop_first());
    }
}

/// One observation per access-point header line: on a scan text whose SSID
/// captures raise no integrity fault, the parser yields exactly as many
/// observations as the text has header lines — and never more on any text.
pub proof fn lemma_observation_count(text: Seq<char>)
    ensures
        scan_faults(text).len() == 0 ==> scan_observations(text).len() == header_count(
            lines_of(text),
        ),
        scan_observations(text).len() <= header_count(lines_of(text)),
{
    let fin = scan_lines(initial_state(), lines_of(text));
    lemma_scan_lines_occupancy(initial_state(), lines_of(text));
    assert(scan_observations(text).len() == occupancy(fin));
}

/// An empty scan text yields no observations and no faults.
pub proof fn lemma_empty_scan_text(text: Seq<char>)
    requires
        text.len() == 0,
    ensures
        scan_observations(text).len() == 0,
        scan_faults(text).len() == 0,
{
    assert(lines_of(text) =~= Seq::<Seq<char>>::empty());
}

/// The parser is a function of the scan text alone: identical text always
/// yields the identical observations, fields and physical-layer
/// classifications included, and the identical faults.
pub proof fn lemma_scan_deterministic(a: Seq<char>, b: Seq<char>)
    requires
        a == b,
    ensures
        scan_observations(a) == scan_observations(b),
        scan_faults(a) == scan_faults(b),
{
}

/// What one scan pass hands back: the observations and the recoverable
/// integrity faults, each in source order.
pub struct ScanOutcome {
    pub observations: Vec<WifiBssid>,
    pub faults: Vec<SsidFault>,
}

/// The model of the parser's running state as the executable loop holds it.
pub open spec fn state_model(
    obs: Seq<WifiBssidModel>,
    faults: Seq<SsidFaultModel>,
    cur: Option<WifiBssid>,
    cur_bad: bool,
) -> ScanState {
    ScanState {
        done: obs,
        faults: faults,
        cur: match cur {
            Some(c) => Some(c@),
            None => None,
        },
        cur_bad: cur_bad,
    }
}

/// Parses the raw text output of one network-interface scan into the
/// ordered observations of its access-point blocks, as [`scan_observations`]
/// and [`scan_faults`] state.
#[verifier::loop_isolation(false)]
pub fn parse_scan_text(text: &str) -> (r: ScanOutcome)
    ensures
        r.observations.deep_view() == scan_observations(text@),
        r.faults.deep_view() == scan_faults(text@),
{
    let cs = chars_of(text);
    let lines = split_lines(&cs);
    let ghost lv = lines.deep_view();
    let mut observations: Vec<WifiBssid> = Vec::new();
    let mut faults: Vec<SsidFault> = Vec::new();
    let mut cur: Option<WifiBssid> = None;
    let mut cur_bad: bool = false;
    let mut li: usize = 0;
    proof {
        assert(lv.skip(0) =~= lv);
        assert(observations.deep_view() =~= Seq::<WifiBssidModel>::empty());
        assert(faults.deep_view() =~= Seq::<SsidFaultModel>::empty());
    }
    while li < lines.len()
        invariant
            li <= lines@.len(),
            lv == lines.deep_view(),
            scan_lines(initial_state(), lv) == scan_lines(
                state_model(observations.deep_view(), faults.deep_view(), cur, cur_bad),
                lv.skip(li as int),
            ),
        decreases lines@.len() - li,
    {
        let line: &Vec<char> = &lines[li];
        let ghost st0 = state_model(observations.deep_view(), faults.deep_view(), cur, cur_bad);
        proof {
            assert(line@ =~= lv[li as int]);
            assert(lv.skip(li as int).len() > 0);
            assert(lv.skip(li as int)[0] == lv[li as int]);
            assert(lv.skip(li as int).drop_first() =~= lv.skip(li + 1));
            assert(scan_lines(st0, lv.skip(li as int)) == scan_lines(
                line_step(st0, lv[li as int]),
                lv.skip(li + 1),
            ));
        }
        if let Some((a, b)) = match_bss(line) {
            let prev = cur;
            let ghost prev_obs = observations.deep_view();
            match prev {
                Some(c) => {
                    if !cur_bad {
                        let ghost cv = c@;
                        observations.push(c);
                        proof {
                            assert(observations.deep_view() =~= prev_obs.push(cv));
                        }
                    }
                },
                None => {},
            }
            let mac = string_of_range(line, a, b);
            cur = Some(
                WifiBssid {
                    ssid: None,
                    bssid: mac,
                    age: None,
                    channel: None,
                    frequency: 0,
                    phy: PhyType::Legacy,
                    rssi: 0,
                },
            );
            cur_bad = false;
            proof {
                assert(state_model(observations.deep_view(), faults.deep_view(), cur, cur_bad)
                    == line_step(st0, lv[li as int]));
            }
        } else {
            let prev = cur;
            match prev {
                None => {
                    cur = None;
                    proof {
                        assert(state_model(
                            observations.deep_view(),
                            faults.deep_view(),
                            cur,
                            cur_bad,
                        ) == line_step(st0, lv[li as int]));
                    }
                },
                Some(c) => {
                    if let Some((a, b)) = match_ssid(line) {
                        let v = sanitize_capture(line, a, b);
                        let ghost prev_faults = faults.deep_view();
                        match v {
                            SsidVerdict::Failed(f) => {
                                let ghost fv = f@;
                                faults.push(f);
                                cur = Some(c);
                                cur_bad = true;
                                proof {
                                    assert(faults.deep_view() =~= prev_faults.push(fv));
                                }
                            },
                            SsidVerdict::Named(name) => {
                                cur = Some(
                                    WifiBssid {
                                        ssid: Some(name),
                                        bssid: c.bssid,
                                        age: c.age,
                                        channel: c.channel,
                                        frequency: c.frequency,
                                        phy: c.phy,
                                        rssi: c.rssi,
                                    },
                                );
                            },
                            SsidVerdict::Hidden => {
                                cur = Some(
                                    WifiBssid {
                                        ssid: None,
                                        bssid: c.bssid,
                                        age: c.age,
                                        channel: c.channel,
                                        frequency: c.frequency,
                                        phy: c.phy,
                                        rssi: c.rssi,
                                    },
                                );
                            },
                            SsidVerdict::Invalid => {
                                cur = Some(
                                    WifiBssid {
                                        ssid: None,
                                        bssid: c.bssid,
                                        age: c.age,
                                        channel: c.channel,
                                        frequency: c.frequency,
                                        phy: c.phy,
                                        rssi: c.rssi,
                                    },
                                );
                            },
                        }
                    } else if let Some((a, b)) = match_freq(line) {
                        let v = parse_freq(line, a, b);
                        cur = Some(
                            WifiBssid {
                                ssid: c.ssid,
                                bssid: c.bssid,
                                age: c.age,
                                channel: c.channel,
                                frequency: v,
                                phy: c.phy,
                                rssi: c.rssi,
                            },
                        );
                    } else if let Some((a, b)) = match_channel(line) {
                        let v = parse_channel(line, a, b);
                        cur = Some(
                            WifiBssid {
                                ssid: c.ssid,
                                bssid: c.bssid,
                                age: c.age,
                                channel: v,
                                frequency: c.frequency,
                                phy: c.phy,
                                rssi: c.rssi,
                            },
                        );
                    } else if let Some((neg, a, b)) = match_signal(line) {
                        let v = parse_signal(neg, line, a, b);
                        cur = Some(
                            WifiBssid {
                                ssid: c.ssid,
                                bssid: c.bssid,
                                age: c.age,
                                channel: c.channel,
                                frequency: c.frequency,
                                phy: c.phy,
                                rssi: v,
                            },
                        );
                    } else if let Some((a, b)) = match_last_seen(line) {
                        let v = parse_age(line, a, b);
                        cur = Some(
                            WifiBssid {
                                ssid: c.ssid,
                                bssid: c.bssid,
                                age: Some(v),
                                channel: c.channel,
                                frequency: c.frequency,
                                phy: c.phy,
                                rssi: c.rssi,
                            },
                        );
                    } else {
                        let p = classify_phy(line);
                        cur = Some(
                            WifiBssid {
                                ssid: c.ssid,
                                bssid: c.bssid,
                                age: c.age,
                                channel: c.channel,
                                frequency: c.frequency,
                                phy: p,
                                rssi: c.rssi,
                            },
                        );
                    }
                    proof {
                        assert(state_model(
                            observations.deep_view(),
                            faults.deep_view(),
                            cur,
                            cur_bad,
                        ) == line_step(st0, lv[li as int]));
                    }
                },
            }
        }
        li = li + 1;
    }
    proof {
        assert(lv.skip(li as int).len() == 0);
    }
    // end of input: flush the block still open
    let prev = cur;
    let ghost st_end = state_model(observations.deep_view(), faults.deep_view(), prev, cur_bad);
    let ghost prev_obs = observations.deep_view();
    match prev {
        Some(c) => {
            if !cur_bad {
                let ghost cv = c@;
                observations.push(c);
                proof {
                    assert(observations.deep_view() =~= prev_obs.push(cv));
                }
            }
        },
        None => {},
    }
    proof {
        assert(observations.deep_view() == flush(st_end).done);
        assert(faults.deep_view() == flush(st_end).faults);
    }
    ScanOutcome { observations, faults }
}

} // verus!
