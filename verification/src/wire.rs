//! The submission wire format: one JSON document with one array of
//! submission items. Both observation kinds are written with the ingest
//! service's camel-cased field names (`macAddress`, `signalStrength`),
//! resolving the casing question one way for both; the WiFi extras keep
//! their own names (`ssid`, `age`, `channel`, `frequency`, `phy`). Absent
//! WiFi fields are written as `null`; an absent beacon name is omitted.
//! Coordinates are written with seven decimal places, the remaining
//! position measures with two.

use vstd::prelude::*;
use crate::observations::{PhyType, WifiBssid, BleBeacon, WifiBssidModel, BleBeaconModel};
use crate::assemble::{GeoSubmission, GeoSubmissionModel, PositionFixModel};
use crate::mdns::hex_digit;
use crate::text::{push_char, chars_of};

verus! {

/// The decimal digits of `v`, most significant first, without sign.
pub open spec fn dec_digits(v: nat) -> Seq<char>
    decreases v,
{
    if v < 10 {
        seq![hex_digit(v as u8)]
    } else {
        dec_digits(v / 10) + seq![hex_digit((v % 10) as u8)]
    }
}

/// The decimal form of an integer, with a leading minus where negative.
pub open spec fn dec_int(v: int) -> Seq<char> {
    if v >= 0 {
        dec_digits(v as nat)
    } else {
        seq!['-'] + dec_digits((-v) as nat)
    }
}

/// Exactly `k` decimal digits of `v`, least significant last, zero-padded
/// at the front.
pub open spec fn dec_pad(v: nat, k: nat) -> Seq<char>
    decreases k,
{
    if k == 0 {
        Seq::empty()
    } else {
        dec_pad(v / 10, (k - 1) as nat) + seq![hex_digit((v % 10) as u8)]
    }
}

/// A fixed-point value `v` at `k` decimal places (`pow` is ten to the
/// `k`th): sign, integer part, point, and exactly `k` fractional digits.
pub open spec fn dec_scaled(v: int, pow: nat, k: nat) -> Seq<char> {
    let mag = if v >= 0 {
        v as nat
    } else {
        (-v) as nat
    };
    let sign: Seq<char> = if v < 0 {
        seq!['-']
    } else {
        Seq::empty()
    };
    sign + dec_digits(mag / pow) + seq!['.'] + dec_pad(mag % pow, k)
}

/// One character's JSON form: quotes and backslashes escaped, control
/// characters as `\u00` hex escapes, everything else as itself.
pub open spec fn json_escape_char(c: char) -> Seq<char> {
    if c == '"' {
        seq!['\\', '"']
    } else if c == '\\' {
        seq!['\\', '\\']
    } else if (c as u32) < 0x20 {
        seq!['\\', 'u', '0', '0', hex_digit(((c as u32) / 16) as u8), hex_digit(
            ((c as u32) % 16) as u8,
        )]
    } else {
        seq![c]
    }
}

/// A string's JSON form between quotes.
pub open spec fn json_escaped(s: Seq<char>) -> Seq<char>
    decreases s.len(),
{
    if s.len() == 0 {
        Seq::empty()
    } else {
        json_escape_char(s[0]) + json_escaped(s.drop_first())
    }
}

/// A quoted JSON string.
pub open spec fn json_string(s: Seq<char>) -> Seq<char> {
    seq!['"'] + json_escaped(s) + seq!['"']
}

/// The wire name of a physical-layer class.
pub open spec fn phy_name(p: PhyType) -> Seq<char> {
    match p {
        PhyType::UHR => "UHR"@,
        PhyType::EHT => "EHT"@,
        PhyType::HE => "HE"@,
        PhyType::VHT => "VHT"@,
        PhyType::HT => "HT"@,
        PhyType::Legacy => "Legacy"@,
    }
}

/// A position object on the wire.
pub open spec fn json_position(p: PositionFixModel) -> Seq<char> {
    "{\"latitude\":"@ + dec_scaled(p.latitude_e7 as int, 10000000, 7) + ",\"longitude\":"@
        + dec_scaled(p.longitude_e7 as int, 10000000, 7) + ",\"accuracy\":"@ + dec_scaled(
        p.accuracy_e2 as int,
        100,
        2,
    ) + ",\"altitude\":"@ + dec_scaled(p.altitude_e2 as int, 100, 2) + ",\"altitudeAccuracy\":"@
        + dec_scaled(p.altitude_accuracy_e2 as int, 100, 2) + ",\"heading\":"@ + dec_scaled(
        p.heading_e2 as int,
        100,
        2,
    ) + ",\"speed\":"@ + dec_scaled(p.speed_e2 as int, 100, 2) + ",\"source\":"@ + json_string(
        p.source,
    ) + "}"@
}

/// An optional number on the wire: the number, or `null`.
pub open spec fn json_opt_u64(v: Option<u64>) -> Seq<char> {
    match v {
        Some(x) => dec_digits(x as nat),
        None => "null"@,
    }
}

/// An optional small number on the wire: the number, or `null`.
pub open spec fn json_opt_u8(v: Option<u8>) -> Seq<char> {
    match v {
        Some(x) => dec_digits(x as nat),
        None => "null"@,
    }
}

/// An optional string on the wire: the quoted string, or `null`.
pub open spec fn json_opt_string(v: Option<Seq<char>>) -> Seq<char> {
    match v {
        Some(s) => json_string(s),
        None => "null"@,
    }
}

/// One WiFi observation on the wire.
pub open spec fn json_wifi(w: WifiBssidModel) -> Seq<char> {
    "{\"macAddress\":"@ + json_string(w.bssid) + ",\"ssid\":"@ + json_opt_string(w.ssid)
        + ",\"age\":"@ + json_opt_u64(w.age) + ",\"channel\":"@ + json_opt_u8(w.channel)
        + ",\"frequency\":"@ + dec_digits(w.frequency as nat) + ",\"signalStrength\":"@ + dec_int(
        w.rssi as int,
    ) + ",\"phy\":"@ + json_string(phy_name(w.phy)) + "}"@
}

/// One beacon observation on the wire; the name stands only when present.
pub open spec fn json_beacon(b: BleBeaconModel) -> Seq<char> {
    "{\"macAddress\":"@ + json_string(b.address) + ",\"signalStrength\":"@ + dec_int(
        b.rssi as int,
    ) + (match b.name {
        Some(n) => ",\"name\":"@ + json_string(n),
        None => Seq::empty(),
    }) + "}"@
}

/// The WiFi observations from index `i` on, comma-separated.
pub open spec fn json_wifi_items(ws: Seq<WifiBssidModel>, i: int) -> Seq<char>
    decreases ws.len() - i,
{
    if i < 0 || i >= ws.len() {
        Seq::empty()
    } else if i + 1 == ws.len() {
        json_wifi(ws[i])
    } else {
        json_wifi(ws[i]) + seq![','] + json_wifi_items(ws, i + 1)
    }
}

/// The beacon observations from index `i` on, comma-separated.
pub open spec fn json_beacon_items(bs: Seq<BleBeaconModel>, i: int) -> Seq<char>
    decreases bs.len() - i,
{
    if i < 0 || i >= bs.len() {
        Seq::empty()
    } else if i + 1 == bs.len() {
        json_beacon(bs[i])
    } else {
        json_beacon(bs[i]) + seq![','] + json_beacon_items(bs, i + 1)
    }
}

/// The whole submission document: one array holding one item.
pub open spec fn json_submission(s: GeoSubmissionModel) -> Seq<char> {
    "{\"items\":[{\"timestamp\":"@ + dec_digits(s.timestamp_ms as nat) + ",\"position\":"@
        + json_position(s.position) + ",\"wifiAccessPoints\":["@ + json_wifi_items(s.wifi, 0)
        + "],\"bluetoothBeacons\":["@ + json_beacon_items(s.beacons, 0) + "]}]}"@
}

/// Appends the decimal digits of `v`.
fn push_u64(out: &mut String, v: u64)
    ensures
        final(out)@ == old(out)@ + dec_digits(v as nat),
    decreases v,
{
    let ghost entry = out@;
    if v < 10 {
        push_char(out, crate::mdns::exec_hex_digit(v as u8));
    } else {
        push_u64(out, v / 10);
        push_char(out, crate::mdns::exec_hex_digit((v % 10) as u8));
        proof {
            assert((entry + dec_digits((v / 10) as nat)) + seq![
                hex_digit((v % 10) as u8),
            ] =~= entry + (dec_digits((v / 10) as nat) + seq![hex_digit((v % 10) as u8)]));
        }
    }
}

/// Appends the decimal form of `v`, minus sign included.
fn push_i64(out: &mut String, v: i64)
    ensures
        final(out)@ == old(out)@ + dec_int(v as int),
{
    let ghost entry = out@;
    if v >= 0 {
        push_u64(out, v as u64);
    } else {
        push_char(out, '-');
        let mag: u64 = (-(v as i128)) as u64;
        push_u64(out, mag);
        proof {
            assert((entry + seq!['-']) + dec_digits(mag as nat) =~= entry + (seq!['-']
                + dec_digits(mag as nat)));
        }
    }
}

/// Appends exactly `k` digits of `v`, zero-padded.
fn push_pad(out: &mut String, v: u64, k: u32)
    ensures
        final(out)@ == old(out)@ + dec_pad(v as nat, k as nat),
    decreases k,
{
    let ghost entry = out@;
    if k > 0 {
        push_pad(out, v / 10, k - 1);
        push_char(out, crate::mdns::exec_hex_digit((v % 10) as u8));
        proof {
            assert((entry + dec_pad((v / 10) as nat, (k - 1) as nat)) + seq![
                hex_digit((v % 10) as u8),
            ] =~= entry + (dec_pad((v / 10) as nat, (k - 1) as nat) + seq![
                hex_digit((v % 10) as u8),
            ]));
        }
    } else {
        proof {
            assert(entry + dec_pad(v as nat, 0) =~= entry);
        }
    }
}

/// Appends a fixed-point value at `k` decimal places; `pow` is ten to the
/// `k`th.
fn push_scaled(out: &mut String, v: i64, pow: u64, k: u32)
    requires
        pow > 0,
    ensures
        final(out)@ == old(out)@ + dec_scaled(v as int, pow as nat, k as nat),
{
    let ghost entry = out@;
    let mag: u64 = if v >= 0 {
        v as u64
    } else {
        (-(v as i128)) as u64
    };
    if v < 0 {
        push_char(out, '-');
    }
    push_u64(out, mag / pow);
    push_char(out, '.');
    push_pad(out, mag % pow, k);
    proof {
        let sign: Seq<char> = if v < 0 {
            seq!['-']
        } else {
            Seq::<char>::empty()
        };
        assert(out@ =~= entry + (sign + dec_digits((mag / pow) as nat) + seq!['.']
            + dec_pad((mag % pow) as nat, k as nat)));
    }
}

/// Appends a literal piece of the document.
fn push_lit(out: &mut String, lit: &str)
    ensures
        final(out)@ == old(out)@ + lit@,
{
    out.append(lit);
}

/// Appends one character's JSON form.
fn push_escaped_char(out: &mut String, c: char)
    ensures
        final(out)@ == old(out)@ + json_escape_char(c),
{
    let ghost entry = out@;
    if c == '"' {
        push_char(out, '\\');
        push_char(out, '"');
        proof {
            assert(out@ =~= entry + json_escape_char(c));
        }
    } else if c == '\\' {
        push_char(out, '\\');
        push_char(out, '\\');
        proof {
            assert(out@ =~= entry + json_escape_char(c));
        }
    } else if (c as u32) < 0x20 {
        let u = c as u32;
        push_char(out, '\\');
        push_char(out, 'u');
        push_char(out, '0');
        push_char(out, '0');
        push_char(out, crate::mdns::exec_hex_digit((u / 16) as u8));
        push_char(out, crate::mdns::exec_hex_digit((u % 16) as u8));
        proof {
            assert(out@ =~= entry + json_escape_char(c));
        }
    } else {
        push_char(out, c);
        proof {
            assert(out@ =~= entry + json_escape_char(c));
        }
    }
}

/// Appends a quoted JSON string.
#[verifier::loop_isolation(false)]
fn push_string(out: &mut String, s: &str)
    ensures
        final(out)@ == old(out)@ + json_string(s@),
{
    push_char(out, '"');
    let cs = chars_of(s);
    let n = cs.len();
    let mut i: usize = 0;
    proof {
        assert(cs@.skip(0) =~= cs@);
    }
    while i < n
        invariant
            i <= n == cs@.len(),
            cs@ == s@,
            out@ == old(out)@ + seq!['"'] + json_escaped(s@.subrange(0, i as int)),
        decreases n - i,
    {
        let ghost done = s@.subrange(0, i as int);
        let c = cs[i];
        push_escaped_char(out, c);
        proof {
            lemma_json_escaped_snoc(s@, i as int);
            assert((old(out)@ + seq!['"'] + json_escaped(done)) + json_escape_char(
                s@[i as int],
            ) =~= old(out)@ + seq!['"'] + (json_escaped(done) + json_escape_char(s@[i as int])));
        }
        i = i + 1;
    }
    push_char(out, '"');
    proof {
        assert(s@.subrange(0, n as int) =~= s@);
        assert(out@ =~= old(out)@ + (seq!['"'] + json_escaped(s@) + seq!['"']));
    }
}

/// Escaping one more character extends the escaped prefix.
proof fn lemma_json_escaped_snoc(s: Seq<char>, i: int)
    requires
        0 <= i < s.len(),
    ensures
        json_escaped(s.subrange(0, i + 1)) == json_escaped(s.subrange(0, i)) + json_escape_char(
            s[i],
        ),
    decreases i,
{
    if i == 0 {
        let one = s.subrange(0, 1);
        assert(one[0] == s[0]);
        assert(one.drop_first() =~= Seq::<char>::empty());
        assert(json_escaped(one) == json_escape_char(s[0]) + json_escaped(Seq::<char>::empty()));
        assert(json_escape_char(s[0]) + Seq::<char>::empty() =~= json_escape_char(s[0]));
        assert(json_escaped(s.subrange(0, 0)) + json_escape_char(s[0]) =~= json_escape_char(
            s[0],
        ));
    } else {
        let a = s.subrange(0, i + 1);
        let b = s.subrange(0, i);
        let t = s.drop_first();
        lemma_json_escaped_snoc(t, i - 1);
        assert(a.drop_first() =~= t.subrange(0, i));
        assert(b.drop_first() =~= t.subrange(0, i - 1));
        assert(a[0] == s[0]);
        assert(b[0] == s[0]);
        assert(t[i - 1] == s[i]);
        assert(json_escaped(a) == json_escape_char(s[0]) + json_escaped(t.subrange(0, i)));
        assert(json_escaped(b) == json_escape_char(s[0]) + json_escaped(t.subrange(0, i - 1)));
        assert((json_escape_char(s[0]) + json_escaped(t.subrange(0, i - 1))) + json_escape_char(
            s[i],
        ) =~= json_escape_char(s[0]) + (json_escaped(t.subrange(0, i - 1)) + json_escape_char(
            s[i],
        )));
    }
}

/// Appends one WiFi observation.
#[verifier::rlimit(80)]
fn push_wifi(out: &mut String, w: &WifiBssid)
    ensures
        final(out)@ == old(out)@ + json_wifi(w@),
{
    let ghost entry = out@;
    push_lit(out, "{\"macAddress\":");
    let ghost a1 = "{\"macAddress\":"@;
    push_string(out, w.bssid.as_str());
    let ghost a2 = a1 + json_string(w@.bssid);
    proof {
        assert((entry + a1) + json_string(w@.bssid) =~= entry + a2);
    }
    push_lit(out, ",\"ssid\":");
    let ghost a3 = a2 + ",\"ssid\":"@;
    proof {
        assert((entry + a2) + ",\"ssid\":"@ =~= entry + a3);
    }
    match &w.ssid {
        Some(s) => push_string(out, s.as_str()),
        None => push_lit(out, "null"),
    }
    let ghost a4 = a3 + json_opt_string(w@.ssid);
    proof {
        assert((entry + a3) + json_opt_string(w@.ssid) =~= entry + a4);
    }
    push_lit(out, ",\"age\":");
    let ghost a5 = a4 + ",\"age\":"@;
    proof {
        assert((entry + a4) + ",\"age\":"@ =~= entry + a5);
    }
    match w.age {
        Some(a) => push_u64(out, a),
        None => push_lit(out, "null"),
    }
    let ghost a6 = a5 + json_opt_u64(w@.age);
    proof {
        assert((entry + a5) + json_opt_u64(w@.age) =~= entry + a6);
    }
    push_lit(out, ",\"channel\":");
    let ghost a7 = a6 + ",\"channel\":"@;
    proof {
        assert((entry + a6) + ",\"channel\":"@ =~= entry + a7);
    }
    match w.channel {
        Some(c) => push_u64(out, c as u64),
        None => push_lit(out, "null"),
    }
    let ghost a8 = a7 + json_opt_u8(w@.channel);
    proof {
        assert((entry + a7) + json_opt_u8(w@.channel) =~= entry + a8);
    }
    push_lit(out, ",\"frequency\":");
    let ghost a9 = a8 + ",\"frequency\":"@;
    proof {
        assert((entry + a8) + ",\"frequency\":"@ =~= entry + a9);
    }
    push_u64(out, w.frequency as u64);
    let ghost a10 = a9 + dec_digits(w@.frequency as nat);
    proof {
        assert((entry + a9) + dec_digits(w@.frequency as nat) =~= entry + a10);
    }
    push_lit(out, ",\"signalStrength\":");
    let ghost a11 = a10 + ",\"signalStrength\":"@;
    proof {
        assert((entry + a10) + ",\"signalStrength\":"@ =~= entry + a11);
    }
    push_i64(out, w.rssi as i64);
    let ghost a12 = a11 + dec_int(w@.rssi as int);
    proof {
        assert((entry + a11) + dec_int(w@.rssi as int) =~= entry + a12);
    }
    push_lit(out, ",\"phy\":");
    let ghost a13 = a12 + ",\"phy\":"@;
    proof {
        assert((entry + a12) + ",\"phy\":"@ =~= entry + a13);
    }
    match w.phy {
        PhyType::UHR => push_lit(out, "\"UHR\""),
        PhyType::EHT => push_lit(out, "\"EHT\""),
        PhyType::HE => push_lit(out, "\"HE\""),
        PhyType::VHT => push_lit(out, "\"VHT\""),
        PhyType::HT => push_lit(out, "\"HT\""),
        PhyType::Legacy => push_lit(out, "\"Legacy\""),
    }
    let ghost a14 = a13 + json_string(phy_name(w@.phy));
    proof {
        lemma_phy_name_quoted(w.phy);
        assert((entry + a13) + json_string(phy_name(w@.phy)) =~= entry + a14);
    }
    push_lit(out, "}");
    let ghost a15 = a14 + "}"@;
    proof {
        assert((entry + a14) + "}"@ =~= entry + a15);
        assert(a15 == json_wifi(w@));
    }
}

/// The quoted wire name of each class is its name between quotes.
proof fn lemma_phy_name_quoted(p: PhyType)
    ensures
        json_string(phy_name(p)) == seq!['"'] + phy_name(p) + seq!['"'],
        "\"UHR\""@ == seq!['"'] + "UHR"@ + seq!['"'],
        "\"EHT\""@ == seq!['"'] + "EHT"@ + seq!['"'],
        "\"HE\""@ == seq!['"'] + "HE"@ + seq!['"'],
        "\"VHT\""@ == seq!['"'] + "VHT"@ + seq!['"'],
        "\"HT\""@ == seq!['"'] + "HT"@ + seq!['"'],
        "\"Legacy\""@ == seq!['"'] + "Legacy"@ + seq!['"'],
{
    reveal_strlit("UHR");
    reveal_strlit("EHT");
    reveal_strlit("HE");
    reveal_strlit("VHT");
    reveal_strlit("HT");
    reveal_strlit("Legacy");
    reveal_strlit("\"UHR\"");
    reveal_strlit("\"EHT\"");
    reveal_strlit("\"HE\"");
    reveal_strlit("\"VHT\"");
    reveal_strlit("\"HT\"");
    reveal_strlit("\"Legacy\"");
    lemma_escaped_plain("UHR"@);
    lemma_escaped_plain("EHT"@);
    lemma_escaped_plain("HE"@);
    lemma_escaped_plain("VHT"@);
    lemma_escaped_plain("HT"@);
    lemma_escaped_plain("Legacy"@);
    assert("\"UHR\""@ =~= seq!['"'] + "UHR"@ + seq!['"']);
    assert("\"EHT\""@ =~= seq!['"'] + "EHT"@ + seq!['"']);
    assert("\"HE\""@ =~= seq!['"'] + "HE"@ + seq!['"']);
    assert("\"VHT\""@ =~= seq!['"'] + "VHT"@ + seq!['"']);
    assert("\"HT\""@ =~= seq!['"'] + "HT"@ + seq!['"']);
    assert("\"Legacy\""@ =~= seq!['"'] + "Legacy"@ + seq!['"']);
}

/// A string without quotes, backslashes or control characters escapes to
/// itself.
proof fn lemma_escaped_plain(s: Seq<char>)
    requires
        forall|i: int|
            0 <= i < s.len() ==> s[i] != '"' && s[i] != '\\' && (s[i] as u32) >= 0x20,
    ensures
        json_escaped(s) == s,
    decreases s.len(),
{
    if s.len() == 0 {
        assert(json_escaped(s) =~= s);
    } else {
        lemma_escaped_plain(s.drop_first());
        assert(json_escape_char(s[0]) =~= seq![s[0]]);
        assert(seq![s[0]] + s.drop_first() =~= s);
    }
}

/// Appends one beacon observation.
fn push_beacon(out: &mut String, b: &BleBeacon)
    ensures
        final(out)@ == old(out)@ + json_beacon(b@),
{
    let ghost entry = out@;
    push_lit(out, "{\"macAddress\":");
    push_string(out, b.address.as_str());
    push_lit(out, ",\"signalStrength\":");
    push_i64(out, b.rssi as i64);
    match &b.name {
        Some(n) => {
            push_lit(out, ",\"name\":");
            push_string(out, n.as_str());
        },
        None => {},
    }
    push_lit(out, "}");
    proof {
        assert(out@ =~= entry + json_beacon(b@));
    }
}

/// Appends the WiFi observations from index `i` on, comma-separated.
fn push_wifi_items(out: &mut String, ws: &Vec<WifiBssid>, i: usize)
    requires
        i <= ws@.len(),
    ensures
        final(out)@ == old(out)@ + json_wifi_items(ws.deep_view(), i as int),
    decreases ws@.len() - i,
{
    let ghost wv = ws.deep_view();
    let ghost entry = out@;
    if i < ws.len() {
        push_wifi(out, &ws[i]);
        if i + 1 < ws.len() {
            push_char(out, ',');
            push_wifi_items(out, ws, i + 1);
            proof {
                assert(((entry + json_wifi(wv[i as int])) + seq![',']) + json_wifi_items(
                    wv,
                    i + 1,
                ) =~= entry + (json_wifi(wv[i as int]) + seq![','] + json_wifi_items(
                    wv,
                    i + 1,
                )));
            }
        } else {
            proof {
                assert(json_wifi_items(wv, i as int) == json_wifi(wv[i as int]));
            }
        }
    } else {
        proof {
            assert(entry + json_wifi_items(wv, i as int) =~= entry);
        }
    }
}

/// Appends the beacon observations from index `i` on, comma-separated.
fn push_beacon_items(out: &mut String, bs: &Vec<BleBeacon>, i: usize)
    requires
        i <= bs@.len(),
    ensures
        final(out)@ == old(out)@ + json_beacon_items(bs.deep_view(), i as int),
    decreases bs@.len() - i,
{
    let ghost bv = bs.deep_view();
    let ghost entry = out@;
    if i < bs.len() {
        push_beacon(out, &bs[i]);
        if i + 1 < bs.len() {
            push_char(out, ',');
            push_beacon_items(out, bs, i + 1);
            proof {
                assert(((entry + json_beacon(bv[i as int])) + seq![',']) + json_beacon_items(
                    bv,
                    i + 1,
                ) =~= entry + (json_beacon(bv[i as int]) + seq![','] + json_beacon_items(
                    bv,
                    i + 1,
                )));
            }
        } else {
            proof {
                assert(json_beacon_items(bv, i as int) == json_beacon(bv[i as int]));
            }
        }
    } else {
        proof {
            assert(entry + json_beacon_items(bv, i as int) =~= entry);
        }
    }
}

/// Appends the position object.
fn push_position(out: &mut String, p: &crate::assemble::PositionFix)
    ensures
        final(out)@ == old(out)@ + json_position(p@),
{
    let ghost entry = out@;
    push_lit(out, "{\"latitude\":");
    push_scaled(out, p.latitude_e7, 10000000, 7);
    push_lit(out, ",\"longitude\":");
    push_scaled(out, p.longitude_e7, 10000000, 7);
    push_lit(out, ",\"accuracy\":");
    push_scaled(out, p.accuracy_e2, 100, 2);
    push_lit(out, ",\"altitude\":");
    push_scaled(out, p.altitude_e2, 100, 2);
    push_lit(out, ",\"altitudeAccuracy\":");
    push_scaled(out, p.altitude_accuracy_e2, 100, 2);
    push_lit(out, ",\"heading\":");
    push_scaled(out, p.heading_e2, 100, 2);
    push_lit(out, ",\"speed\":");
    push_scaled(out, p.speed_e2, 100, 2);
    push_lit(out, ",\"source\":");
    push_string(out, p.source.as_str());
    push_lit(out, "}");
    proof {
        assert(out@ =~= entry + json_position(p@));
    }
}

/// Serializes one submission record into the wire document, exactly as
/// [`json_submission`] states.
pub fn encode_submission(s: &GeoSubmission) -> (r: String)
    ensures
        r@ == json_submission(s@),
{
    let mut out = String::new();
    push_lit(&mut out, "{\"items\":[{\"timestamp\":");
    push_u64(&mut out, s.timestamp_ms);
    push_lit(&mut out, ",\"position\":");
    push_position(&mut out, &s.position);
    push_lit(&mut out, ",\"wifiAccessPoints\":[");
    push_wifi_items(&mut out, &s.wifi, 0);
    push_lit(&mut out, "],\"bluetoothBeacons\":[");
    push_beacon_items(&mut out, &s.beacons, 0);
    push_lit(&mut out, "]}]}");
    proof {
        assert(out@ =~= json_submission(s@));
    }
    out
}

} // verus!
