//! The local service-discovery advertisement, computed as plain values: the
//! service type, the host name derived from the user name, the port, and
//! the text properties carrying the certificate fingerprint in hex.

use vstd::prelude::*;
use crate::text::push_char;

verus! {

/// The character for one hex value below sixteen, lower case.
pub open spec fn hex_digit(v: u8) -> char {
    if v == 0 {
        '0'
    } else if v == 1 {
        '1'
    } else if v == 2 {
        '2'
    } else if v == 3 {
        '3'
    } else if v == 4 {
        '4'
    } else if v == 5 {
        '5'
    } else if v == 6 {
        '6'
    } else if v == 7 {
        '7'
    } else if v == 8 {
        '8'
    } else if v == 9 {
        '9'
    } else if v == 10 {
        'a'
    } else if v == 11 {
        'b'
    } else if v == 12 {
        'c'
    } else if v == 13 {
        'd'
    } else if v == 14 {
        'e'
    } else {
        'f'
    }
}

/// The lower-case hex encoding of a byte sequence: two digits per byte,
/// high digit first.
pub open spec fn hex_of(bytes: Seq<u8>) -> Seq<char>
    decreases bytes.len(),
{
    if bytes.len() == 0 {
        Seq::empty()
    } else {
        seq![hex_digit(bytes[0] / 16), hex_digit(bytes[0] % 16)] + hex_of(bytes.drop_first())
    }
}

/// The executable form of [`hex_digit`].
pub(crate) fn exec_hex_digit(v: u8) -> (r: char)
    requires
        v < 16,
    ensures
        r == hex_digit(v),
{
    if v == 0 {
        '0'
    } else if v == 1 {
        '1'
    } else if v == 2 {
        '2'
    } else if v == 3 {
        '3'
    } else if v == 4 {
        '4'
    } else if v == 5 {
        '5'
    } else if v == 6 {
        '6'
    } else if v == 7 {
        '7'
    } else if v == 8 {
        '8'
    } else if v == 9 {
        '9'
    } else if v == 10 {
        'a'
    } else if v == 11 {
        'b'
    } else if v == 12 {
        'c'
    } else if v == 13 {
        'd'
    } else if v == 14 {
        'e'
    } else {
        'f'
    }
}

/// Encodes bytes as lower-case hex, as [`hex_of`] states.
#[verifier::loop_isolation(false)]
pub fn hex_encode(bytes: &[u8]) -> (r: String)
    ensures
        r@ == hex_of(bytes@),
{
    let n = bytes.len();
    let mut r = String::new();
    let mut i: usize = 0;
    proof {
        assert(bytes@.skip(0) =~= bytes@);
        assert(r@ + hex_of(bytes@) =~= hex_of(bytes@));
    }
    while i < n
        invariant
            i <= n == bytes@.len(),
            hex_of(bytes@) == r@ + hex_of(bytes@.skip(i as int)),
        decreases n - i,
    {
        let ghost s = bytes@.skip(i as int);
        let b = bytes[i];
        let hi = exec_hex_digit(b / 16);
        let lo = exec_hex_digit(b % 16);
        let ghost prev = r@;
        push_char(&mut r, hi);
        push_char(&mut r, lo);
        proof {
            assert(s[0] == bytes@[i as int]);
            assert(s.drop_first() =~= bytes@.skip(i + 1));
            assert(hex_of(s) == seq![hex_digit(b / 16), hex_digit(b % 16)] + hex_of(
                bytes@.skip(i + 1),
            ));
            assert(r@ =~= prev + seq![hex_digit(b / 16), hex_digit(b % 16)]);
            assert((prev + seq![hex_digit(b / 16), hex_digit(b % 16)]) + hex_of(
                bytes@.skip(i + 1),
            ) =~= prev + (seq![hex_digit(b / 16), hex_digit(b % 16)] + hex_of(bytes@.skip(i + 1))));
        }
        i = i + 1;
    }
    proof {
        assert(bytes@.skip(i as int).len() == 0);
        assert(r@ + hex_of(bytes@.skip(i as int)) =~= r@);
    }
    r
}

/// A letter's lower-case form; anything but an upper-case ASCII letter
/// stays as it is.
pub open spec fn ascii_lower_char(c: char) -> char {
    if ('A' as u32) <= (c as u32) && (c as u32) <= ('Z' as u32) {
        (((c as u32) + 32) as char)
    } else {
        c
    }
}

/// The sequence with every ASCII letter lowered.
pub open spec fn ascii_lower(s: Seq<char>) -> Seq<char> {
    s.map(|i: int, c: char| ascii_lower_char(c))
}

/// The executable form of [`ascii_lower_char`].
fn exec_ascii_lower_char(c: char) -> (r: char)
    ensures
        r == ascii_lower_char(c),
{
    match c {
        'A' => 'a',
        'B' => 'b',
        'C' => 'c',
        'D' => 'd',
        'E' => 'e',
        'F' => 'f',
        'G' => 'g',
        'H' => 'h',
        'I' => 'i',
        'J' => 'j',
        'K' => 'k',
        'L' => 'l',
        'M' => 'm',
        'N' => 'n',
        'O' => 'o',
        'P' => 'p',
        'Q' => 'q',
        'R' => 'r',
        'S' => 's',
        'T' => 't',
        'U' => 'u',
        'V' => 'v',
        'W' => 'w',
        'X' => 'x',
        'Y' => 'y',
        'Z' => 'z',
        _ => c,
    }
}

/// Lowers every ASCII letter of a string, as [`ascii_lower`] states.
#[verifier::loop_isolation(false)]
pub fn ascii_lowercase(s: &str) -> (r: String)
    ensures
        r@ == ascii_lower(s@),
{
    let cs = crate::text::chars_of(s);
    let n = cs.len();
    let mut r = String::new();
    let mut i: usize = 0;
    while i < n
        invariant
            i <= n == cs@.len(),
            cs@ == s@,
            r@ == s@.subrange(0, i as int).map(|k: int, c: char| ascii_lower_char(c)),
        decreases n - i,
    {
        let c = exec_ascii_lower_char(cs[i]);
        let ghost prev = r@;
        push_char(&mut r, c);
        proof {
            assert(s@.subrange(0, i + 1 as int) =~= s@.subrange(0, i as int).push(s@[i as int]));
            assert(s@.subrange(0, i + 1 as int).map(|k: int, c: char| ascii_lower_char(c)) =~= s@
                .subrange(0, i as int).map(|k: int, c: char| ascii_lower_char(c)).push(
                ascii_lower_char(s@[i as int]),
            ));
            assert(r@ =~= prev.push(ascii_lower_char(s@[i as int])));
        }
        i = i + 1;
    }
    proof {
        assert(s@.subrange(0, n as int) =~= s@);
        assert(r@ =~= ascii_lower(s@));
    }
    r
}

/// The advertisement a composition root registers: every string the
/// registration needs, computed from plain inputs.
#[derive(Debug)]
pub struct MdnsDescriptor {
    /// The service type, fixed: `_serviceberry._tcp.local.`.
    pub service_type: String,
    /// The human-readable instance name, as supplied.
    pub instance_name: String,
    /// The DNS name clients connect to: `serviceberry-` plus the lowered
    /// user name plus `.local`.
    pub hostname: String,
    /// The port the service listens on.
    pub port: u16,
    /// The text properties, in fixed order: the version, the route list,
    /// and the certificate fingerprint in lower-case hex.
    pub properties: Vec<(String, String)>,
}

/// The well-formedness of a built descriptor against its inputs.
pub open spec fn mdns_descriptor_wf(
    d: MdnsDescriptor,
    instance_name: Seq<char>,
    version: Seq<char>,
    fingerprint: Seq<u8>,
    username: Seq<char>,
    port: u16,
) -> bool {
    &&& d.service_type@ == "_serviceberry._tcp.local."@
    &&& d.instance_name@ == instance_name
    &&& d.hostname@ == "serviceberry-"@ + ascii_lower(username) + ".local"@
    &&& d.port == port
    &&& d.properties@.len() == 3
    &&& d.properties@[0].0@ == "version"@ && d.properties@[0].1@ == version
    &&& d.properties@[1].0@ == "paths"@ && d.properties@[1].1@ == (
    "/submit, /status, /request"@)
    &&& d.properties@[2].0@ == "cert_fingerprint"@ && d.properties@[2].1@ == hex_of(fingerprint)
}

/// Builds the advertisement for one identity and host, as
/// [`mdns_descriptor_wf`] states.
pub fn mdns_descriptor(
    instance_name: &str,
    version: &str,
    fingerprint: &[u8; 32],
    username: &str,
    port: u16,
) -> (r: MdnsDescriptor)
    ensures
        mdns_descriptor_wf(r, instance_name@, version@, fingerprint@, username@, port),
{
    let mut hostname = String::new();
    hostname.append("serviceberry-");
    let lowered = ascii_lowercase(username);
    hostname.append(lowered.as_str());
    hostname.append(".local");
    let mut properties: Vec<(String, String)> = Vec::new();
    properties.push(("version".to_owned(), version.to_owned()));
    properties.push(("paths".to_owned(), "/submit, /status, /request".to_owned()));
    properties.push(("cert_fingerprint".to_owned(), hex_encode(fingerprint.as_slice())));
    MdnsDescriptor {
        service_type: "_serviceberry._tcp.local.".to_owned(),
        instance_name: instance_name.to_owned(),
        hostname,
        port,
        properties,
    }
}

} // verus!
