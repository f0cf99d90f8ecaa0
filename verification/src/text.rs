//! Character-level text model shared by the scan parser and the SSID
//! sanitizer: character classes, whitespace trimming, line splitting, and
//! the few bridges between `String` and the `Seq<char>` model.

use vstd::prelude::*;

verus! {

/// ASCII whitespace as the scan grammar understands it.
pub open spec fn is_space(c: char) -> bool {
    c == ' ' || c == '\t' || c == '\r' || c == '\u{b}' || c == '\u{c}'
}

/// Decimal digit.
pub open spec fn is_digit(c: char) -> bool {
    ('0' as u32) <= (c as u32) && (c as u32) <= ('9' as u32)
}

/// Hexadecimal digit, either case.
pub open spec fn is_hex_digit(c: char) -> bool {
    is_digit(c) || (('a' as u32) <= (c as u32) && (c as u32) <= ('f' as u32)) || (('A' as u32)
        <= (c as u32) && (c as u32) <= ('F' as u32))
}

/// Lower-case hexadecimal digit or `:`, the alphabet of a MAC-like address.
pub open spec fn is_mac_char(c: char) -> bool {
    is_digit(c) || (('a' as u32) <= (c as u32) && (c as u32) <= ('f' as u32)) || c == ':'
}

/// A character outside the control range: not `00`-`1F` and not `7F`.
pub open spec fn is_printable(c: char) -> bool {
    !((c as u32) < 0x20 || (c as u32) == 0x7f)
}

pub fn exec_is_space(c: char) -> (r: bool)
    ensures
        r == is_space(c),
{
    c == ' ' || c == '\t' || c == '\r' || c == '\u{b}' || c == '\u{c}'
}

pub fn exec_is_digit(c: char) -> (r: bool)
    ensures
        r == is_digit(c),
{
    let u = c as u32;
    ('0' as u32) <= u && u <= ('9' as u32)
}

pub fn exec_is_hex_digit(c: char) -> (r: bool)
    ensures
        r == is_hex_digit(c),
{
    let u = c as u32;
    exec_is_digit(c) || (('a' as u32) <= u && u <= ('f' as u32)) || (('A' as u32) <= u && u <= (
    'F' as u32))
}

pub fn exec_is_mac_char(c: char) -> (r: bool)
    ensures
        r == is_mac_char(c),
{
    let u = c as u32;
    exec_is_digit(c) || (('a' as u32) <= u && u <= ('f' as u32)) || c == ':'
}

pub fn exec_is_printable(c: char) -> (r: bool)
    ensures
        r == is_printable(c),
{
    let u = c as u32;
    !(u < 0x20 || u == 0x7f)
}

/// The sequence with leading whitespace removed.
pub open spec fn trim_start(s: Seq<char>) -> Seq<char>
    decreases s.len(),
{
    if s.len() == 0 {
        s
    } else if is_space(s[0]) {
        trim_start(s.drop_first())
    } else {
        s
    }
}

/// The sequence with trailing whitespace removed.
pub open spec fn trim_end(s: Seq<char>) -> Seq<char>
    decreases s.len(),
{
    if s.len() == 0 {
        s
    } else if is_space(s.last()) {
        trim_end(s.drop_last())
    } else {
        s
    }
}

/// The sequence with whitespace removed from both ends.
pub open spec fn trim(s: Seq<char>) -> Seq<char> {
    trim_end(trim_start(s))
}

pub proof fn lemma_trim_start_subrange(s: Seq<char>, a: int)
    requires
        0 <= a <= s.len(),
        forall|k: int| 0 <= k < a ==> is_space(s[k]),
        a == s.len() || !is_space(s[a]),
    ensures
        trim_start(s) == s.subrange(a, s.len() as int),
    decreases a,
{
    if a == 0 {
        if s.len() == 0 {
            assert(s.subrange(0, s.len() as int) =~= s);
        } else {
            assert(s.subrange(0, s.len() as int) =~= s);
        }
    } else {
        assert(is_space(s[0]));
        let t = s.drop_first();
        assert(t =~= s.subrange(1, s.len() as int));
        lemma_trim_start_subrange(t, a - 1);
        assert(t.subrange(a - 1, t.len() as int) =~= s.subrange(a, s.len() as int));
    }
}

pub proof fn lemma_trim_end_subrange(s: Seq<char>, b: int)
    requires
        0 <= b <= s.len(),
        forall|k: int| b <= k < s.len() ==> is_space(s[k]),
        b == 0 || !is_space(s[b - 1]),
    ensures
        trim_end(s) == s.subrange(0, b),
    decreases s.len() - b,
{
    if b == s.len() {
        if s.len() == 0 {
            assert(s.subrange(0, b) =~= s);
        } else {
            assert(!is_space(s.last()));
            assert(s.subrange(0, b) =~= s);
        }
    } else {
        assert(is_space(s.last()));
        let t = s.drop_last();
        lemma_trim_end_subrange(t, b);
        assert(t.subrange(0, b) =~= s.subrange(0, b));
    }
}

/// Index of the first newline in `s`, meaningful only when one exists.
pub open spec fn first_newline(s: Seq<char>) -> int
    decreases s.len(),
{
    if s.len() == 0 {
        0
    } else if s[0] == '\n' {
        0
    } else {
        1 + first_newline(s.drop_first())
    }
}

pub proof fn lemma_first_newline(s: Seq<char>, i: int)
    requires
        0 <= i < s.len(),
        s[i] == '\n',
        forall|k: int| 0 <= k < i ==> s[k] != '\n',
    ensures
        first_newline(s) == i,
    decreases i,
{
    if i == 0 {
    } else {
        let t = s.drop_first();
        lemma_first_newline(t, i - 1);
    }
}

/// Whether `s` contains a newline.
pub open spec fn has_newline(s: Seq<char>) -> bool {
    exists|i: int| 0 <= i < s.len() && s[i] == '\n'
}

/// One line's content: a trailing carriage return ahead of the line break is
/// dropped.
pub open spec fn strip_cr(s: Seq<char>) -> Seq<char> {
    if s.len() > 0 && s.last() == '\r' {
        s.drop_last()
    } else {
        s
    }
}

/// The lines of `s`, split at `\n` or `\r\n` line endings, the final line
/// ending optional; empty input has no lines.
pub open spec fn lines_of(s: Seq<char>) -> Seq<Seq<char>>
    decreases s.len(),
{
    if s.len() == 0 {
        Seq::empty()
    } else if has_newline(s) {
        let i = first_newline(s);
        if 0 <= i < s.len() {
            seq![strip_cr(s.subrange(0, i))] + lines_of(s.subrange(i + 1, s.len() as int))
        } else {
            Seq::empty()
        }
    } else {
        seq![s]
    }
}

/// Relies on `str::chars`: yields exactly the characters of the string, in
/// order, which is how `vstd` defines the view of `str`.
#[verifier::external_body]
pub fn chars_of(s: &str) -> (r: Vec<char>)
    ensures
        r@ == s@,
{
    s.chars().collect()
}

/// Relies on `String::push`: appends exactly the one character.
#[verifier::external_body]
pub fn push_char(s: &mut String, c: char)
    ensures
        final(s)@ == old(s)@ + seq![c],
{
    s.push(c)
}

/// Builds the string holding `cs[from..to]`.
pub fn string_of_range(cs: &Vec<char>, from: usize, to: usize) -> (r: String)
    requires
        from <= to <= cs@.len(),
    ensures
        r@ == cs@.subrange(from as int, to as int),
{
    let mut r = String::new();
    let mut i: usize = from;
    while i < to
        invariant
            from <= i <= to <= cs@.len(),
            r@ == cs@.subrange(from as int, i as int),
        decreases to - i,
    {
        let c = cs[i];
        push_char(&mut r, c);
        proof {
            assert(cs@.subrange(from as int, i + 1 as int) =~= cs@.subrange(from as int, i as int)
                + seq![cs@[i as int]]);
        }
        i = i + 1;
    }
    r
}

/// Splits `text` into its lines.
pub fn split_lines(text: &Vec<char>) -> (r: Vec<Vec<char>>)
    ensures
        r.deep_view() == lines_of(text@),
{
    let n = text.len();
    let mut r: Vec<Vec<char>> = Vec::new();
    let mut j: usize = 0;
    proof {
        assert(text@.subrange(0, n as int) =~= text@);
        assert(r.deep_view() =~= Seq::<Seq<char>>::empty());
        assert(r.deep_view() + lines_of(text@) =~= lines_of(text@));
    }
    while j < n
        invariant
            0 <= j <= n == text@.len(),
            lines_of(text@) == r.deep_view() + lines_of(text@.subrange(j as int, n as int)),
        decreases n - j,
    {
        // find the end of the line that starts at j
        let mut k: usize = j;
        while k < n && text[k] != '\n'
            invariant
                j <= k <= n == text@.len(),
                forall|t: int| j <= t < k ==> text@[t] != '\n',
            decreases n - k,
        {
            k = k + 1;
        }
        let ghost rest = text@.subrange(j as int, n as int);
        // a carriage return counts as part of the line ending only ahead of a
        // line break; at end of input it stays in the line
        let mut end: usize = k;
        if k < n && k > j && text[k - 1] == '\r' {
            end = k - 1;
        }
        let mut line: Vec<char> = Vec::new();
        let mut t: usize = j;
        while t < end
            invariant
                j <= t <= end <= text@.len(),
                line@ == text@.subrange(j as int, t as int),
            decreases end - t,
        {
            let c = text[t];
            line.push(c);
            proof {
                assert(text@.subrange(j as int, t + 1 as int) =~= text@.subrange(
                    j as int,
                    t as int,
                ) + seq![text@[t as int]]);
            }
            t = t + 1;
        }
        proof {
            assert(rest.len() > 0);
            if k < n {
                // the line break at k is the first one in the remainder
                assert(rest[k - j] == '\n');
                assert(forall|q: int| 0 <= q < k - j ==> rest[q] != '\n');
                assert(has_newline(rest));
                lemma_first_newline(rest, k - j);
                assert(rest.subrange(0, k - j) =~= text@.subrange(j as int, k as int));
                assert(strip_cr(text@.subrange(j as int, k as int)) =~= text@.subrange(
                    j as int,
                    end as int,
                ));
                assert(rest.subrange(k - j + 1, rest.len() as int) =~= text@.subrange(
                    k + 1 as int,
                    n as int,
                ));
                assert(lines_of(rest) == seq![line@] + lines_of(
                    text@.subrange(k + 1 as int, n as int),
                ));
            } else {
                // no further line break: the remainder is the last line
                assert(forall|q: int| 0 <= q < rest.len() ==> rest[q] != '\n');
                assert(!has_newline(rest));
                assert(rest =~= text@.subrange(j as int, k as int));
                assert(end == k);
                assert(rest =~= text@.subrange(j as int, end as int));
                assert(lines_of(rest) == seq![line@]);
                assert(lines_of(text@.subrange(n as int, n as int)) =~= Seq::<Seq<char>>::empty());
            }
        }
        let ghost prev_dv = r.deep_view();
        let ghost line_v = line@;
        r.push(line);
        proof {
            assert(line.deep_view() =~= line_v);
            assert(r.deep_view() =~= prev_dv + seq![line_v]);
            let ghost next = if k < n {
                k + 1
            } else {
                n as int
            };
            assert((prev_dv + seq![line_v]) + lines_of(text@.subrange(next, n as int)) =~= prev_dv
                + (seq![line_v] + lines_of(text@.subrange(next, n as int))));
        }
        j = if k < n {
            k + 1
        } else {
            n
        };
    }
    proof {
        assert(lines_of(text@.subrange(j as int, n as int)) =~= Seq::<Seq<char>>::empty());
        assert(r.deep_view() + Seq::<Seq<char>>::empty() =~= r.deep_view());
    }
    r
}

} // verus!
