//! The line grammar of the scan text: which lines open an access-point
//! block, carry a tracked field, or carry a capability banner, and what each
//! one captures.

use vstd::prelude::*;
use crate::text::{is_space, is_digit, is_mac_char, exec_is_space, exec_is_digit, exec_is_mac_char};
use crate::observations::PhyType;

verus! {

/// The characters of `lit` stand in `l` starting at position `i`.
pub open spec fn lit_at(l: Seq<char>, i: int, lit: Seq<char>) -> bool {
    &&& 0 <= i
    &&& i + lit.len() <= l.len()
    &&& l.subrange(i, i + lit.len() as int) == lit
}

/// First position at or after `i` that does not hold whitespace.
pub open spec fn ws_end(l: Seq<char>, i: int) -> int
    decreases l.len() - i,
{
    if i < 0 {
        i
    } else if i >= l.len() {
        i
    } else if is_space(l[i]) {
        ws_end(l, i + 1)
    } else {
        i
    }
}

/// First position at or after `i` that does not hold a decimal digit.
pub open spec fn digits_end(l: Seq<char>, i: int) -> int
    decreases l.len() - i,
{
    if i < 0 {
        i
    } else if i >= l.len() {
        i
    } else if is_digit(l[i]) {
        digits_end(l, i + 1)
    } else {
        i
    }
}

/// Decides whether `lit` stands at position `i` of `cs`.
#[verifier::loop_isolation(false)]
pub fn match_lit(cs: &Vec<char>, i: usize, lit: &str) -> (r: bool)
    requires
        i <= cs@.len(),
    ensures
        r == lit_at(cs@, i as int, lit@),
{
    let m = lit.unicode_len();
    if m > cs.len() - i {
        return false;
    }
    let mut j: usize = 0;
    while j < m
        invariant
            j <= m == lit@.len(),
            i + m <= cs@.len(),
            forall|k: int| 0 <= k < j ==> cs@[i + k] == lit@[k],
        decreases m - j,
    {
        let c = lit.get_char(j);
        if cs[i + j] != c {
            proof {
                let sub = cs@.subrange(i as int, i + m);
                assert(sub[j as int] == cs@[i + j]);
            }
            return false;
        }
        j = j + 1;
    }
    proof {
        assert(cs@.subrange(i as int, i + m) =~= lit@);
    }
    true
}

/// Skips whitespace: the executable form of [`ws_end`].
#[verifier::loop_isolation(false)]
pub fn skip_spaces(cs: &Vec<char>, i: usize) -> (r: usize)
    requires
        i <= cs@.len(),
    ensures
        r == ws_end(cs@, i as int),
        i <= r <= cs@.len(),
{
    let n = cs.len();
    let mut j: usize = i;
    while j < n && exec_is_space(cs[j])
        invariant
            i <= j <= n == cs@.len(),
            ws_end(cs@, i as int) == ws_end(cs@, j as int),
        decreases n - j,
    {
        j = j + 1;
    }
    j
}

/// Skips digits: the executable form of [`digits_end`].
#[verifier::loop_isolation(false)]
pub fn skip_digits(cs: &Vec<char>, i: usize) -> (r: usize)
    requires
        i <= cs@.len(),
    ensures
        r == digits_end(cs@, i as int),
        i <= r <= cs@.len(),
        forall|k: int| i <= k < r ==> is_digit(cs@[k]),
{
    let n = cs.len();
    let mut j: usize = i;
    while j < n && exec_is_digit(cs[j])
        invariant
            i <= j <= n == cs@.len(),
            digits_end(cs@, i as int) == digits_end(cs@, j as int),
            forall|k: int| i <= k < j ==> is_digit(cs@[k]),
        decreases n - j,
    {
        j = j + 1;
    }
    j
}

/// An access-point header: the line opens with `BSS ` followed by seventeen
/// characters of a MAC-like address, which are the capture.
pub open spec fn bss_capture(l: Seq<char>) -> Option<Seq<char>> {
    let m = "BSS "@.len() as int;
    if lit_at(l, 0, "BSS "@) && m + 17 <= l.len() && (forall|k: int|
        m <= k < m + 17 ==> is_mac_char(l[k])) {
        Some(l.subrange(m, m + 17))
    } else {
        None
    }
}

/// Decides [`bss_capture`], handing back the capture's bounds.
#[verifier::loop_isolation(false)]
pub fn match_bss(cs: &Vec<char>) -> (r: Option<(usize, usize)>)
    ensures
        match r {
            Some((a, b)) => a <= b <= cs@.len() && bss_capture(cs@) == Some(
                cs@.subrange(a as int, b as int),
            ),
            None => bss_capture(cs@) is None,
        },
{
    if !match_lit(cs, 0, "BSS ") {
        return None;
    }
    proof {
        reveal_strlit("BSS ");
    }
    let m = "BSS ".unicode_len();
    if cs.len() < m + 17 {
        return None;
    }
    let mut j: usize = m;
    while j < m + 17
        invariant
            m <= j <= m + 17 <= cs@.len(),
            m == "BSS "@.len(),
            forall|k: int| m <= k < j ==> is_mac_char(cs@[k]),
        decreases m + 17 - j,
    {
        if !exec_is_mac_char(cs[j]) {
            return None;
        }
        j = j + 1;
    }
    Some((m, m + 17))
}

/// An SSID field line: optional whitespace, `SSID:`, and the capture running
/// to the end of the line.
pub open spec fn ssid_capture(l: Seq<char>) -> Option<Seq<char>> {
    let j = ws_end(l, 0);
    if lit_at(l, j, "SSID:"@) {
        Some(l.subrange(j + "SSID:"@.len(), l.len() as int))
    } else {
        None
    }
}

/// Decides [`ssid_capture`], handing back the capture's bounds.
pub fn match_ssid(cs: &Vec<char>) -> (r: Option<(usize, usize)>)
    ensures
        match r {
            Some((a, b)) => a <= b <= cs@.len() && ssid_capture(cs@) == Some(
                cs@.subrange(a as int, b as int),
            ),
            None => ssid_capture(cs@) is None,
        },
{
    let n = cs.len();
    let j = skip_spaces(cs, 0);
    if match_lit(cs, j, "SSID:") {
        let m = "SSID:".unicode_len();
        Some((j + m, n))
    } else {
        None
    }
}

/// A frequency field line: optional whitespace, `freq: `, and a non-empty
/// digit capture.
pub open spec fn freq_capture(l: Seq<char>) -> Option<Seq<char>> {
    let j = ws_end(l, 0);
    let d0 = j + "freq: "@.len() as int;
    if lit_at(l, j, "freq: "@) && digits_end(l, d0) > d0 {
        Some(l.subrange(d0, digits_end(l, d0)))
    } else {
        None
    }
}

/// Decides [`freq_capture`], handing back the capture's bounds.
pub fn match_freq(cs: &Vec<char>) -> (r: Option<(usize, usize)>)
    ensures
        match r {
            Some((a, b)) => a <= b <= cs@.len() && freq_capture(cs@) == Some(
                cs@.subrange(a as int, b as int),
            ) && (forall|k: int| a <= k < b ==> is_digit(cs@[k])),
            None => freq_capture(cs@) is None,
        },
{
    let n = cs.len();
    let j = skip_spaces(cs, 0);
    if !match_lit(cs, j, "freq: ") {
        return None;
    }
    let m = "freq: ".unicode_len();
    proof {
        assert(j + m <= n);
    }
    let de = skip_digits(cs, j + m);
    if de > j + m {
        Some((j + m, de))
    } else {
        None
    }
}

/// A primary-channel field line: optional whitespace, `* primary channel: `,
/// and a non-empty digit capture.
pub open spec fn channel_capture(l: Seq<char>) -> Option<Seq<char>> {
    let j = ws_end(l, 0);
    let d0 = j + "* primary channel: "@.len() as int;
    if lit_at(l, j, "* primary channel: "@) && digits_end(l, d0) > d0 {
        Some(l.subrange(d0, digits_end(l, d0)))
    } else {
        None
    }
}

/// Decides [`channel_capture`], handing back the capture's bounds.
pub fn match_channel(cs: &Vec<char>) -> (r: Option<(usize, usize)>)
    ensures
        match r {
            Some((a, b)) => a <= b <= cs@.len() && channel_capture(cs@) == Some(
                cs@.subrange(a as int, b as int),
            ) && (forall|k: int| a <= k < b ==> is_digit(cs@[k])),
            None => channel_capture(cs@) is None,
        },
{
    let n = cs.len();
    let j = skip_spaces(cs, 0);
    if !match_lit(cs, j, "* primary channel: ") {
        return None;
    }
    let m = "* primary channel: ".unicode_len();
    proof {
        assert(j + m <= n);
    }
    let de = skip_digits(cs, j + m);
    if de > j + m {
        Some((j + m, de))
    } else {
        None
    }
}

/// A last-seen field line: optional whitespace, `last seen: `, a non-empty
/// digit capture, optional whitespace, and `ms`.
pub open spec fn last_seen_capture(l: Seq<char>) -> Option<Seq<char>> {
    let j = ws_end(l, 0);
    let d0 = j + "last seen: "@.len() as int;
    let de = digits_end(l, d0);
    if lit_at(l, j, "last seen: "@) && de > d0 && lit_at(l, ws_end(l, de), "ms"@) {
        Some(l.subrange(d0, de))
    } else {
        None
    }
}

/// Decides [`last_seen_capture`], handing back the capture's bounds.
pub fn match_last_seen(cs: &Vec<char>) -> (r: Option<(usize, usize)>)
    ensures
        match r {
            Some((a, b)) => a <= b <= cs@.len() && last_seen_capture(cs@) == Some(
                cs@.subrange(a as int, b as int),
            ) && (forall|k: int| a <= k < b ==> is_digit(cs@[k])),
            None => last_seen_capture(cs@) is None,
        },
{
    let n = cs.len();
    let j = skip_spaces(cs, 0);
    if !match_lit(cs, j, "last seen: ") {
        return None;
    }
    let m = "last seen: ".unicode_len();
    proof {
        assert(j + m <= n);
    }
    let de = skip_digits(cs, j + m);
    if de == j + m {
        return None;
    }
    let w = skip_spaces(cs, de);
    if match_lit(cs, w, "ms") {
        Some((j + m, de))
    } else {
        None
    }
}

/// The signal pattern stands at position `p`: the literal `signal:`,
/// whitespace, an optionally negated decimal number with an optional
/// fraction, a space, and `dBm`.
pub open spec fn signal_match_at(l: Seq<char>, p: int) -> bool {
    let j = ws_end(l, p + "signal:"@.len() as int);
    let d0 = if j < l.len() && l[j] == '-' {
        j + 1
    } else {
        j
    };
    let de = digits_end(l, d0);
    let fe = signal_frac_end(l, de);
    lit_at(l, p, "signal:"@) && de > d0 && lit_at(l, fe, " dBm"@)
}

/// End of the optional fractional part that starts at `de`.
pub open spec fn signal_frac_end(l: Seq<char>, de: int) -> int {
    if 0 <= de < l.len() && l[de] == '.' && digits_end(l, de + 1) > de + 1 {
        digits_end(l, de + 1)
    } else {
        de
    }
}

/// Earliest position at or after `p` where the signal pattern stands.
pub open spec fn find_signal(l: Seq<char>, p: int) -> Option<int>
    decreases l.len() - p,
{
    if p < 0 || p >= l.len() {
        None
    } else if signal_match_at(l, p) {
        Some(p)
    } else {
        find_signal(l, p + 1)
    }
}

/// The signal-strength reading of a line: the integer part of the decimal
/// dBm number at the earliest signal match, truncated toward zero and
/// clamped to `i32`; `None` when the pattern stands nowhere in the line.
pub open spec fn signal_result(l: Seq<char>) -> Option<i32> {
    match find_signal(l, 0) {
        Some(p) => {
            let j = ws_end(l, p + "signal:"@.len() as int);
            let neg = j < l.len() && l[j] == '-';
            let d0 = if neg {
                j + 1
            } else {
                j
            };
            let de = digits_end(l, d0);
            Some(crate::num::signal_val(neg, l.subrange(d0, de)))
        },
        None => None,
    }
}

/// Decides whether the signal pattern stands at `p` and hands back the sign
/// and the bounds of the integer digits.
fn signal_at(cs: &Vec<char>, p: usize) -> (r: Option<(bool, usize, usize)>)
    requires
        p < cs@.len(),
    ensures
        match r {
            Some((neg, a, b)) => {
                &&& signal_match_at(cs@, p as int)
                &&& a <= b <= cs@.len()
                &&& (forall|k: int| a <= k < b ==> is_digit(cs@[k]))
                &&& {
                    let j = ws_end(cs@, p + "signal:"@.len());
                    &&& neg == (j < cs@.len() && cs@[j] == '-')
                    &&& a == if neg {
                        j + 1
                    } else {
                        j
                    }
                    &&& b == digits_end(cs@, a as int)
                }
            },
            None => !signal_match_at(cs@, p as int),
        },
{
    let n = cs.len();
    if !match_lit(cs, p, "signal:") {
        return None;
    }
    let m = "signal:".unicode_len();
    proof {
        assert(p + m <= n);
    }
    let j = skip_spaces(cs, p + m);
    let neg = j < n && cs[j] == '-';
    let d0 = if neg {
        j + 1
    } else {
        j
    };
    let de = skip_digits(cs, d0);
    if de == d0 {
        return None;
    }
    // optional fraction: a dot followed by at least one digit
    let mut fe: usize = de;
    if de < n && cs[de] == '.' {
        let f = skip_digits(cs, de + 1);
        if f > de + 1 {
            fe = f;
        }
    }
    if match_lit(cs, fe, " dBm") {
        Some((neg, d0, de))
    } else {
        None
    }
}

/// Finds the earliest signal match of the line and hands back the sign and
/// the bounds of its integer digits.
#[verifier::loop_isolation(false)]
pub fn match_signal(cs: &Vec<char>) -> (r: Option<(bool, usize, usize)>)
    ensures
        match r {
            Some((neg, a, b)) => {
                &&& a <= b <= cs@.len()
                &&& (forall|k: int| a <= k < b ==> is_digit(cs@[k]))
                &&& signal_result(cs@) == Some(
                    crate::num::signal_val(neg, cs@.subrange(a as int, b as int)),
                )
            },
            None => signal_result(cs@) is None,
        },
{
    let n = cs.len();
    let mut p: usize = 0;
    while p < n
        invariant
            p <= n == cs@.len(),
            find_signal(cs@, 0) == find_signal(cs@, p as int),
        decreases n - p,
    {
        if let Some((neg, a, b)) = signal_at(cs, p) {
            proof {
                assert(find_signal(cs@, p as int) == Some(p as int));
            }
            return Some((neg, a, b));
        }
        p = p + 1;
    }
    None
}

/// The capability banner the line carries, in precedence order, or `Legacy`
/// when it carries none; applied to every line of an open block that is not
/// a tracked field.
pub open spec fn phy_of_line(l: Seq<char>) -> PhyType {
    let j = ws_end(l, 0);
    if lit_at(l, j, "UHR capabilities:"@) {
        PhyType::UHR
    } else if lit_at(l, j, "EHT capabilities:"@) {
        PhyType::EHT
    } else if lit_at(l, j, "HE capabilities:"@) {
        PhyType::HE
    } else if lit_at(l, j, "VHT capabilities:"@) {
        PhyType::VHT
    } else if lit_at(l, j, "HT capabilities:"@) {
        PhyType::HT
    } else {
        PhyType::Legacy
    }
}

/// Classifies the line's capability banner: the executable form of
/// [`phy_of_line`].
pub fn classify_phy(cs: &Vec<char>) -> (r: PhyType)
    ensures
        r == phy_of_line(cs@),
{
    let j = skip_spaces(cs, 0);
    if match_lit(cs, j, "UHR capabilities:") {
        PhyType::UHR
    } else if match_lit(cs, j, "EHT capabilities:") {
        PhyType::EHT
    } else if match_lit(cs, j, "HE capabilities:") {
        PhyType::HE
    } else if match_lit(cs, j, "VHT capabilities:") {
        PhyType::VHT
    } else if match_lit(cs, j, "HT capabilities:") {
        PhyType::HT
    } else {
        PhyType::Legacy
    }
}

} // verus!
