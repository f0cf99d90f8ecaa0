//! Decimal digit strings and the saturating conversions the scan parser
//! applies to them.

use vstd::prelude::*;
use crate::text::is_digit;

verus! {

/// Value of one decimal digit.
pub open spec fn digit_val(c: char) -> nat {
    ((c as u32) - ('0' as u32)) as nat
}

/// Value of a decimal digit string, most significant digit first.
pub open spec fn digits_val(s: Seq<char>) -> nat
    decreases s.len(),
{
    if s.len() == 0 {
        0
    } else {
        digits_val(s.drop_last()) * 10 + digit_val(s.last())
    }
}

/// The parser's value of a frequency capture: the exact value when it fits
/// `u16`, otherwise the field default `0`.
pub open spec fn freq_val(s: Seq<char>) -> u16 {
    if digits_val(s) <= u16::MAX {
        digits_val(s) as u16
    } else {
        0
    }
}

/// The parser's value of a channel capture: the exact value when it fits
/// `u8`, otherwise no channel.
pub open spec fn channel_val(s: Seq<char>) -> Option<u8> {
    if digits_val(s) <= u8::MAX {
        Some(digits_val(s) as u8)
    } else {
        None
    }
}

/// The parser's value of a signal capture: the integer part of the decimal
/// dBm reading (truncation toward zero), clamped to the `i32` range.
pub open spec fn signal_val(neg: bool, int_digits: Seq<char>) -> i32 {
    let v: int = if neg {
        -(digits_val(int_digits) as int)
    } else {
        digits_val(int_digits) as int
    };
    if v < i32::MIN {
        i32::MIN
    } else if v > i32::MAX {
        i32::MAX
    } else {
        v as i32
    }
}

/// The parser's value of a last-seen capture: the captured count taken as
/// seconds and converted to milliseconds, saturating at the `u64` range.
pub open spec fn age_val(s: Seq<char>) -> u64 {
    if digits_val(s) * 1000 <= u64::MAX {
        (digits_val(s) * 1000) as u64
    } else {
        u64::MAX
    }
}

/// Parses `cs[from..to]` as a decimal number, saturating at `u64::MAX`.
pub fn parse_u64_sat(cs: &Vec<char>, from: usize, to: usize) -> (r: u64)
    requires
        from <= to <= cs@.len(),
        forall|k: int| from <= k < to ==> is_digit(cs@[k]),
    ensures
        digits_val(cs@.subrange(from as int, to as int)) <= u64::MAX ==> r == digits_val(
            cs@.subrange(from as int, to as int),
        ),
        digits_val(cs@.subrange(from as int, to as int)) > u64::MAX ==> r == u64::MAX,
{
    let ghost whole = cs@.subrange(from as int, to as int);
    let mut acc: u64 = 0;
    let mut sat: bool = false;
    let mut i: usize = from;
    while i < to
        invariant
            from <= i <= to <= cs@.len(),
            forall|k: int| from <= k < to ==> is_digit(cs@[k]),
            whole == cs@.subrange(from as int, to as int),
            !sat ==> acc == digits_val(cs@.subrange(from as int, i as int)),
            sat ==> digits_val(cs@.subrange(from as int, i as int)) > u64::MAX,
        decreases to - i,
    {
        let c = cs[i];
        assert(is_digit(cs@[i as int]));
        let d: u64 = ((c as u32) - ('0' as u32)) as u64;
        assert(d == digit_val(cs@[i as int]) && d <= 9);
        let ghost prefix = cs@.subrange(from as int, i as int);
        let ghost next_prefix = cs@.subrange(from as int, i + 1 as int);
        proof {
            assert(next_prefix.drop_last() =~= prefix);
            assert(next_prefix.last() == cs@[i as int]);
            assert(digits_val(next_prefix) == digits_val(prefix) * 10 + d);
        }
        if sat || acc > (u64::MAX - d) / 10 {
            proof {
                if !sat {
                    assert(acc * 10 + d > u64::MAX) by (nonlinear_arith)
                        requires
                            acc > (u64::MAX - d) / 10,
                            d <= 9,
                    ;
                } else {
                    assert(digits_val(prefix) * 10 + d > u64::MAX) by (nonlinear_arith)
                        requires
                            digits_val(prefix) > u64::MAX,
                    ;
                }
            }
            sat = true;
        } else {
            proof {
                assert(acc * 10 + d <= u64::MAX) by (nonlinear_arith)
                    requires
                        acc <= (u64::MAX - d) / 10,
                        d <= 9,
                ;
            }
            acc = acc * 10 + d;
        }
        i = i + 1;
    }
    if sat {
        u64::MAX
    } else {
        acc
    }
}

/// Parses a frequency capture, yielding `0` when the value does not fit.
pub fn parse_freq(cs: &Vec<char>, from: usize, to: usize) -> (r: u16)
    requires
        from <= to <= cs@.len(),
        forall|k: int| from <= k < to ==> is_digit(cs@[k]),
    ensures
        r == freq_val(cs@.subrange(from as int, to as int)),
{
    let v = parse_u64_sat(cs, from, to);
    if v <= u16::MAX as u64 {
        v as u16
    } else {
        0
    }
}

/// Parses a channel capture, yielding `None` when the value does not fit.
pub fn parse_channel(cs: &Vec<char>, from: usize, to: usize) -> (r: Option<u8>)
    requires
        from <= to <= cs@.len(),
        forall|k: int| from <= k < to ==> is_digit(cs@[k]),
    ensures
        r == channel_val(cs@.subrange(from as int, to as int)),
{
    let v = parse_u64_sat(cs, from, to);
    if v <= u8::MAX as u64 {
        Some(v as u8)
    } else {
        None
    }
}

/// Parses a signal capture: sign and integer digits, clamped to `i32`.
pub fn parse_signal(neg: bool, cs: &Vec<char>, from: usize, to: usize) -> (r: i32)
    requires
        from <= to <= cs@.len(),
        forall|k: int| from <= k < to ==> is_digit(cs@[k]),
    ensures
        r == signal_val(neg, cs@.subrange(from as int, to as int)),
{
    let v = parse_u64_sat(cs, from, to);
    if neg {
        if v >= 2147483648u64 {
            i32::MIN
        } else {
            -(v as i32)
        }
    } else {
        if v >= 2147483647u64 {
            i32::MAX
        } else {
            v as i32
        }
    }
}

/// Parses a last-seen capture as seconds and converts to milliseconds,
/// saturating at the `u64` range.
pub fn parse_age(cs: &Vec<char>, from: usize, to: usize) -> (r: u64)
    requires
        from <= to <= cs@.len(),
        forall|k: int| from <= k < to ==> is_digit(cs@[k]),
    ensures
        r == age_val(cs@.subrange(from as int, to as int)),
{
    let v = parse_u64_sat(cs, from, to);
    if v <= u64::MAX / 1000 {
        proof {
            assert(v * 1000 <= u64::MAX) by (nonlinear_arith)
                requires
                    v <= u64::MAX / 1000,
            ;
        }
        v * 1000
    } else {
        proof {
            let ghost dv = digits_val(cs@.subrange(from as int, to as int));
            assert(dv >= v);
            assert(dv * 1000 > u64::MAX) by (nonlinear_arith)
                requires
                    dv >= v,
                    v > u64::MAX / 1000,
            ;
        }
        u64::MAX
    }
}

} // verus!
