//! SSID sanitization: classifies a raw SSID capture and cleans it into a
//! human-meaningful name, reports it as hidden or invalid, or reports a
//! recoverable integrity fault carrying the offending raw value.

use vstd::prelude::*;
use crate::text::{
    is_space, is_hex_digit, is_printable, trim, exec_is_space, exec_is_hex_digit,
    exec_is_printable, lemma_trim_start_subrange, lemma_trim_end_subrange, string_of_range,
    chars_of,
};

verus! {

/// A `\xHH` escape sequence starts at position `i` of `s`.
pub open spec fn is_escape_at(s: Seq<char>, i: int) -> bool {
    &&& 0 <= i
    &&& i + 4 <= s.len()
    &&& s[i] == '\\'
    &&& s[i + 1] == 'x'
    &&& is_hex_digit(s[i + 2])
    &&& is_hex_digit(s[i + 3])
}

/// `s` is a (possibly empty) run of escape sequences and literal spaces.
pub open spec fn hidden_shape(s: Seq<char>) -> bool
    decreases s.len(),
{
    if s.len() == 0 {
        true
    } else if s[0] == ' ' {
        hidden_shape(s.skip(1))
    } else if is_escape_at(s, 0) {
        hidden_shape(s.skip(4))
    } else {
        false
    }
}

/// `s` is a (possibly empty) run of escape sequences only.
pub open spec fn escapes_shape(s: Seq<char>) -> bool
    decreases s.len(),
{
    if s.len() == 0 {
        true
    } else if is_escape_at(s, 0) {
        escapes_shape(s.skip(4))
    } else {
        false
    }
}

/// `s` is one or more escape sequences and nothing else.
pub open spec fn invalid_shape(s: Seq<char>) -> bool {
    s.len() > 0 && escapes_shape(s)
}

/// An escape sequence occurs somewhere in `s`.
pub open spec fn has_escape(s: Seq<char>) -> bool {
    exists|i: int| is_escape_at(s, i)
}

/// `s` with every escape sequence removed, scanning left to right and never
/// rescanning the characters of a removed sequence.
pub open spec fn strip_escapes(s: Seq<char>) -> Seq<char>
    decreases s.len(),
{
    if s.len() == 0 {
        s
    } else if is_escape_at(s, 0) {
        strip_escapes(s.skip(4))
    } else {
        seq![s[0]] + strip_escapes(s.skip(1))
    }
}

/// Some character of `s` lies outside the control range.
pub open spec fn has_printable(s: Seq<char>) -> bool {
    exists|i: int| 0 <= i < s.len() && is_printable(s[i])
}

/// The distinct integrity-fault kinds of SSID sanitization.
#[derive(Clone, Copy, Debug, PartialEq, Eq, Structural)]
pub enum SsidFaultKind {
    /// Escape stripping left nothing: the capture held escapes mixed with
    /// other characters, yet nothing survived cleaning.
    EmptyAfterCleaning,
    /// The capture held no escapes and no printable character at all.
    NoPrintable,
}

/// A recoverable integrity fault, carrying the offending raw capture.
#[derive(Clone, Debug, PartialEq)]
pub struct SsidFault {
    pub kind: SsidFaultKind,
    pub raw: String,
}

/// Mathematical model of a [`SsidFault`].
pub struct SsidFaultModel {
    pub kind: SsidFaultKind,
    pub raw: Seq<char>,
}

impl View for SsidFault {
    type V = SsidFaultModel;

    open spec fn view(&self) -> SsidFaultModel {
        SsidFaultModel { kind: self.kind, raw: self.raw@ }
    }
}

impl DeepView for SsidFault {
    type V = SsidFaultModel;

    open spec fn deep_view(&self) -> SsidFaultModel {
        self.view()
    }
}

/// The sanitizer's result for one raw SSID capture.
#[derive(Clone, Debug, PartialEq)]
pub enum SsidVerdict {
    /// The capture denotes a hidden network: escapes and spaces only, with at
    /// least one space, or nothing at all.
    Hidden,
    /// The capture is solely one or more escape sequences.
    Invalid,
    /// A usable name, cleaned of escapes where any were present.
    Named(String),
    /// An integrity fault; the observation it belongs to is to be skipped.
    Failed(SsidFault),
}

/// Mathematical model of a [`SsidVerdict`].
pub enum SsidVerdictModel {
    Hidden,
    Invalid,
    Named(Seq<char>),
    Failed(SsidFaultKind, Seq<char>),
}

impl View for SsidVerdict {
    type V = SsidVerdictModel;

    open spec fn view(&self) -> SsidVerdictModel {
        match self {
            SsidVerdict::Hidden => SsidVerdictModel::Hidden,
            SsidVerdict::Invalid => SsidVerdictModel::Invalid,
            SsidVerdict::Named(s) => SsidVerdictModel::Named(s@),
            SsidVerdict::Failed(f) => SsidVerdictModel::Failed(f.kind, f.raw@),
        }
    }
}

/// The sanitizer's decision function. On the whitespace-trimmed capture, in
/// order: solely escapes is invalid; escapes and spaces only (or nothing) is
/// hidden; a mix of escapes and other text is cleaned by stripping the
/// escapes, an empty remainder being an integrity fault; an escape-free
/// capture with a printable character is kept unchanged; anything else is an
/// integrity fault.
pub open spec fn ssid_verdict(raw: Seq<char>) -> SsidVerdictModel {
    let t = trim(raw);
    if invalid_shape(t) {
        SsidVerdictModel::Invalid
    } else if hidden_shape(t) {
        SsidVerdictModel::Hidden
    } else if has_escape(t) {
        let cleaned = trim(strip_escapes(t));
        if cleaned.len() == 0 {
            SsidVerdictModel::Failed(SsidFaultKind::EmptyAfterCleaning, raw)
        } else {
            SsidVerdictModel::Named(cleaned)
        }
    } else if has_printable(t) {
        SsidVerdictModel::Named(t)
    } else {
        SsidVerdictModel::Failed(SsidFaultKind::NoPrintable, raw)
    }
}

/// The name a verdict contributes to an observation: only a usable name
/// counts; hidden, invalid, and faulted captures contribute none.
pub open spec fn verdict_name(v: SsidVerdictModel) -> Option<Seq<char>> {
    match v {
        SsidVerdictModel::Named(s) => Some(s),
        _ => None,
    }
}

/// Whether an escape sequence starts at position `i` of `cs`.
fn escape_at(cs: &Vec<char>, i: usize) -> (r: bool)
    requires
        i <= cs@.len(),
    ensures
        r == is_escape_at(cs@, i as int),
{
    if cs.len() >= 4 && i <= cs.len() - 4 {
        cs[i] == '\\' && cs[i + 1] == 'x' && exec_is_hex_digit(cs[i + 2]) && exec_is_hex_digit(
            cs[i + 3],
        )
    } else {
        false
    }
}

/// An escape at position `i` of `s` is an escape at position `0` of
/// `s.skip(i)`, and the other way round.
pub proof fn lemma_escape_shift(s: Seq<char>, i: int)
    requires
        0 <= i <= s.len(),
    ensures
        is_escape_at(s, i) == is_escape_at(s.skip(i), 0),
{
    let t = s.skip(i);
    if i + 4 <= s.len() {
        assert(t[0] == s[i]);
        assert(t[1] == s[i + 1]);
        assert(t[2] == s[i + 2]);
        assert(t[3] == s[i + 3]);
    }
}

/// The trimmed window of `cs`: the bounds of `trim(cs@)`.
fn trim_bounds(cs: &Vec<char>) -> (r: (usize, usize))
    ensures
        r.0 <= r.1 <= cs@.len(),
        trim(cs@) == cs@.subrange(r.0 as int, r.1 as int),
{
    let n = cs.len();
    let mut a: usize = 0;
    while a < n && exec_is_space(cs[a])
        invariant
            a <= n == cs@.len(),
            forall|k: int| 0 <= k < a ==> is_space(cs@[k]),
        decreases n - a,
    {
        a = a + 1;
    }
    proof {
        lemma_trim_start_subrange(cs@, a as int);
    }
    let mut b: usize = n;
    while b > a && exec_is_space(cs[b - 1])
        invariant
            a <= b <= n == cs@.len(),
            forall|k: int| b <= k < n ==> is_space(cs@[k]),
        decreases b,
    {
        b = b - 1;
    }
    proof {
        let s = cs@.subrange(a as int, n as int);
        assert(forall|k: int| b - a <= k < s.len() ==> is_space(s[k]));
        if b > a {
            assert(s[b - a - 1] == cs@[b - 1]);
        }
        lemma_trim_end_subrange(s, b - a);
        assert(s.subrange(0, b - a) =~= cs@.subrange(a as int, b as int));
    }
    (a, b)
}

/// Copies `cs[from..to]` out as its own vector.
fn vec_of_range(cs: &Vec<char>, from: usize, to: usize) -> (r: Vec<char>)
    requires
        from <= to <= cs@.len(),
    ensures
        r@ == cs@.subrange(from as int, to as int),
{
    let mut r: Vec<char> = Vec::new();
    let mut i: usize = from;
    while i < to
        invariant
            from <= i <= to <= cs@.len(),
            r@ == cs@.subrange(from as int, i as int),
        decreases to - i,
    {
        let c = cs[i];
        r.push(c);
        proof {
            assert(cs@.subrange(from as int, i + 1 as int) =~= cs@.subrange(from as int, i as int)
                + seq![cs@[i as int]]);
        }
        i = i + 1;
    }
    r
}

/// Decides [`hidden_shape`] for the whole of `t`.
fn check_hidden(t: &Vec<char>) -> (r: bool)
    ensures
        r == hidden_shape(t@),
{
    let n = t.len();
    let mut i: usize = 0;
    proof {
        assert(t@.skip(0) =~= t@);
    }
    while i < n
        invariant
            i <= n == t@.len(),
            hidden_shape(t@) == hidden_shape(t@.skip(i as int)),
        decreases n - i,
    {
        let ghost s = t@.skip(i as int);
        proof {
            assert(s[0] == t@[i as int]);
            lemma_escape_shift(t@, i as int);
        }
        if t[i] == ' ' {
            proof {
                assert(s.skip(1) =~= t@.skip(i + 1));
            }
            i = i + 1;
        } else if escape_at(t, i) {
            proof {
                assert(s.skip(4) =~= t@.skip(i + 4));
            }
            i = i + 4;
        } else {
            proof {
                assert(!is_escape_at(s, 0));
            }
            return false;
        }
    }
    proof {
        assert(t@.skip(i as int).len() == 0);
    }
    true
}

/// Decides [`escapes_shape`] for the whole of `t`.
fn check_escapes(t: &Vec<char>) -> (r: bool)
    ensures
        r == escapes_shape(t@),
{
    let n = t.len();
    let mut i: usize = 0;
    proof {
        assert(t@.skip(0) =~= t@);
    }
    while i < n
        invariant
            i <= n == t@.len(),
            escapes_shape(t@) == escapes_shape(t@.skip(i as int)),
        decreases n - i,
    {
        let ghost s = t@.skip(i as int);
        proof {
            lemma_escape_shift(t@, i as int);
        }
        if escape_at(t, i) {
            proof {
                assert(s.skip(4) =~= t@.skip(i + 4));
            }
            i = i + 4;
        } else {
            proof {
                assert(!is_escape_at(s, 0));
                assert(s.len() > 0);
            }
            return false;
        }
    }
    proof {
        assert(t@.skip(i as int).len() == 0);
    }
    true
}

/// Decides [`has_escape`] for the whole of `t`.
fn check_has_escape(t: &Vec<char>) -> (r: bool)
    ensures
        r == has_escape(t@),
{
    let n = t.len();
    let mut i: usize = 0;
    while i < n
        invariant
            i <= n == t@.len(),
            forall|k: int| 0 <= k < i ==> !is_escape_at(t@, k),
        decreases n - i,
    {
        if escape_at(t, i) {
            proof {
                assert(is_escape_at(t@, i as int));
            }
            return true;
        }
        i = i + 1;
    }
    proof {
        assert forall|k: int| !is_escape_at(t@, k) by {
            if 0 <= k < n {
            }
        }
    }
    false
}

/// Decides [`has_printable`] for the whole of `t`.
fn check_has_printable(t: &Vec<char>) -> (r: bool)
    ensures
        r == has_printable(t@),
{
    let n = t.len();
    let mut i: usize = 0;
    while i < n
        invariant
            i <= n == t@.len(),
            forall|k: int| 0 <= k < i ==> !is_printable(t@[k]),
        decreases n - i,
    {
        if exec_is_printable(t[i]) {
            return true;
        }
        i = i + 1;
    }
    false
}

/// Computes [`strip_escapes`] of the whole of `t`.
fn do_strip_escapes(t: &Vec<char>) -> (r: Vec<char>)
    ensures
        r@ == strip_escapes(t@),
{
    let n = t.len();
    let mut r: Vec<char> = Vec::new();
    let mut i: usize = 0;
    proof {
        assert(t@.skip(0) =~= t@);
        assert(Seq::<char>::empty() + strip_escapes(t@) =~= strip_escapes(t@));
    }
    while i < n
        invariant
            i <= n == t@.len(),
            strip_escapes(t@) == r@ + strip_escapes(t@.skip(i as int)),
        decreases n - i,
    {
        let ghost s = t@.skip(i as int);
        proof {
            lemma_escape_shift(t@, i as int);
        }
        if escape_at(t, i) {
            proof {
                assert(s.skip(4) =~= t@.skip(i + 4));
            }
            i = i + 4;
        } else {
            let c = t[i];
            let ghost prev = r@;
            r.push(c);
            proof {
                assert(s[0] == t@[i as int]);
                assert(!is_escape_at(s, 0));
                assert(s.skip(1) =~= t@.skip(i + 1));
                assert(strip_escapes(s) == seq![c] + strip_escapes(t@.skip(i + 1)));
                assert((prev + seq![c]) + strip_escapes(t@.skip(i + 1)) =~= prev + (seq![c]
                    + strip_escapes(t@.skip(i + 1))));
            }
            i = i + 1;
        }
    }
    proof {
        assert(t@.skip(i as int).len() == 0);
        assert(r@ + strip_escapes(t@.skip(i as int)) =~= r@);
    }
    r
}

/// Classifies and cleans the SSID capture `cs[from..to]`, as
/// [`ssid_verdict`] states.
pub fn sanitize_capture(cs: &Vec<char>, from: usize, to: usize) -> (r: SsidVerdict)
    requires
        from <= to <= cs@.len(),
    ensures
        r@ == ssid_verdict(cs@.subrange(from as int, to as int)),
{
    let raw = vec_of_range(cs, from, to);
    proof {
        assert(raw@.subrange(0, raw@.len() as int) =~= raw@);
    }
    let (a, b) = trim_bounds(&raw);
    let t = vec_of_range(&raw, a, b);
    let ghost tv = trim(raw@);
    assert(t@ == tv);
    if t.len() > 0 && check_escapes(&t) {
        return SsidVerdict::Invalid;
    }
    if check_hidden(&t) {
        return SsidVerdict::Hidden;
    }
    if check_has_escape(&t) {
        let stripped = do_strip_escapes(&t);
        let (sa, sb) = trim_bounds(&stripped);
        if sa == sb {
            proof {
                assert(trim(strip_escapes(tv)).len() == 0);
            }
            return SsidVerdict::Failed(
                SsidFault {
                    kind: SsidFaultKind::EmptyAfterCleaning,
                    raw: string_of_range(&raw, 0, raw.len()),
                },
            );
        }
        let cleaned = string_of_range(&stripped, sa, sb);
        return SsidVerdict::Named(cleaned);
    }
    if check_has_printable(&t) {
        let name = string_of_range(&t, 0, t.len());
        proof {
            assert(t@.subrange(0, t@.len() as int) =~= t@);
        }
        return SsidVerdict::Named(name);
    }
    SsidVerdict::Failed(
        SsidFault { kind: SsidFaultKind::NoPrintable, raw: string_of_range(&raw, 0, raw.len()) },
    )
}

/// Classifies and cleans one raw SSID capture, as [`ssid_verdict`] states.
pub fn parse_ssid(raw_ssid: &str) -> (r: SsidVerdict)
    ensures
        r@ == ssid_verdict(raw_ssid@),
{
    let cs = chars_of(raw_ssid);
    let n = cs.len();
    proof {
        assert(cs@.subrange(0, n as int) =~= cs@);
    }
    sanitize_capture(&cs, 0, n)
}

} // verus!
