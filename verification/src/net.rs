//! Plain-value network types: an IPv4 address held as four octets, an
//! interface snapshot, selection over an interface catalog, and a strict
//! dotted-quad address parser. Enumeration of the machine's interfaces is
//! outside work; callers hand the catalog in as a vector of snapshots.

use vstd::prelude::*;
use vstd::string::StrSliceExecFns;
use vstd::string::StringExecFns;

verus! {

/// An IPv4 address as its four big-endian octets.
#[derive(Clone, Copy, PartialEq, Eq, Structural, Debug)]
pub struct Ipv4Address {
    pub a: u8,
    pub b: u8,
    pub c: u8,
    pub d: u8,
}

impl Ipv4Address {
    pub fn new(a: u8, b: u8, c: u8, d: u8) -> (r: Ipv4Address)
        ensures
            r == (Ipv4Address { a, b, c, d }),
    {
        Ipv4Address { a, b, c, d }
    }
}

/// The numeric value of an IPv4 address: its octets read as one
/// big-endian 32-bit word.
pub open spec fn spec_ipv4_u32(ip: Ipv4Address) -> int {
    ip.a * 0x1000000 + ip.b * 0x10000 + ip.c * 0x100 + ip.d
}

/// Packs an IPv4 address into its big-endian 32-bit numeric value.
pub fn ipv4_to_u32(ip: Ipv4Address) -> (r: u32)
    ensures
        r == spec_ipv4_u32(ip),
{
    (ip.a as u32) * 0x1000000 + (ip.b as u32) * 0x10000 + (ip.c as u32) * 0x100 + (ip.d as u32)
}

/// A snapshot of one network interface: name, 6-byte link address, bound
/// IPv4 addresses, and the up/loopback flags. Immutable once taken.
pub struct NetworkInterface {
    pub name: String,
    pub mac: [u8; 6],
    pub ips: Vec<Ipv4Address>,
    pub is_up: bool,
    pub is_loopback: bool,
}

/// An interface is usable for raw traffic when it is up, is not the
/// loopback device, and has at least one bound address.
pub open spec fn spec_usable(iface: NetworkInterface) -> bool {
    iface.is_up && !iface.is_loopback && iface.ips@.len() > 0
}

/// Selects the first usable interface of the catalog, if any.
pub fn find_usable_interface(ifaces: &Vec<NetworkInterface>) -> (r: Option<usize>)
    ensures
        match r {
            Some(i) => {
                &&& i < ifaces@.len()
                &&& spec_usable(ifaces@[i as int])
                &&& forall|j: int| 0 <= j < i ==> !spec_usable(ifaces@[j])
            },
            None => forall|j: int| 0 <= j < ifaces@.len() ==> !spec_usable(ifaces@[j]),
        },
{
    let mut i: usize = 0;
    while i < ifaces.len()
        invariant
            i <= ifaces@.len(),
            forall|j: int| 0 <= j < i ==> !spec_usable(ifaces@[j]),
        decreases ifaces@.len() - i,
    {
        let iface = &ifaces[i];
        if iface.is_up && !iface.is_loopback && iface.ips.len() > 0 {
            return Some(i);
        }
        i = i + 1;
    }
    None
}

/// Finds the interface with the given name, if present.
pub fn find_interface_by_name(ifaces: &Vec<NetworkInterface>, name: &str) -> (r: Option<usize>)
    ensures
        match r {
            Some(i) => {
                &&& i < ifaces@.len()
                &&& ifaces@[i as int].name@ == name@
                &&& forall|j: int| 0 <= j < i ==> ifaces@[j].name@ != name@
            },
            None => forall|j: int| 0 <= j < ifaces@.len() ==> ifaces@[j].name@ != name@,
        },
{
    let wanted = String::from_str(name);
    let mut i: usize = 0;
    while i < ifaces.len()
        invariant
            i <= ifaces@.len(),
            wanted@ == name@,
            forall|j: int| 0 <= j < i ==> ifaces@[j].name@ != name@,
        decreases ifaces@.len() - i,
    {
        if ifaces[i].name.eq(&wanted) {
            return Some(i);
        }
        i = i + 1;
    }
    None
}

/// A decimal digit character.
pub open spec fn is_digit(c: char) -> bool {
    '0' <= c && c <= '9'
}

/// The numeric value of a decimal digit character.
pub open spec fn digit_val(c: char) -> int {
    c as int - '0' as int
}

/// The index just past the run of digit characters starting at `i`.
pub open spec fn digit_run_end(s: Seq<char>, i: int) -> int
    decreases s.len() - i + 1,
{
    if 0 <= i < s.len() && is_digit(s[i]) {
        digit_run_end(s, i + 1)
    } else {
        i
    }
}

/// The numeric value of the digit characters `s[i..j]`.
pub open spec fn digits_value(s: Seq<char>, i: int, j: int) -> int
    decreases j - i,
{
    if i >= j {
        0
    } else {
        digits_value(s, i, j - 1) * 10 + digit_val(s[j - 1])
    }
}

/// A well-formed octet at `i` ending at `j`: a nonempty digit run without
/// a superfluous leading zero, whose value fits in one byte.
pub open spec fn valid_octet(s: Seq<char>, i: int, j: int) -> bool {
    &&& j == digit_run_end(s, i)
    &&& i < j
    &&& (j == i + 1 || s[i] != '0')
    &&& digits_value(s, i, j) <= 255
}

/// The parse of a dotted-quad IPv4 address text: exactly four octets
/// separated by single dots, nothing before or after. `None` on any
/// malformed text.
pub open spec fn spec_parse_ipv4(s: Seq<char>) -> Option<Ipv4Address> {
    let j1 = digit_run_end(s, 0);
    let j2 = digit_run_end(s, j1 + 1);
    let j3 = digit_run_end(s, j2 + 1);
    let j4 = digit_run_end(s, j3 + 1);
    if valid_octet(s, 0, j1) && j1 < s.len() && s[j1] == '.' && valid_octet(s, j1 + 1, j2) && j2
        < s.len() && s[j2] == '.' && valid_octet(s, j2 + 1, j3) && j3 < s.len() && s[j3] == '.'
        && valid_octet(s, j3 + 1, j4) && j4 == s.len() {
        Some(
            Ipv4Address {
                a: digits_value(s, 0, j1) as u8,
                b: digits_value(s, j1 + 1, j2) as u8,
                c: digits_value(s, j2 + 1, j3) as u8,
                d: digits_value(s, j3 + 1, j4) as u8,
            },
        )
    } else {
        None
    }
}

proof fn lemma_digits_value_nonneg(s: Seq<char>, i: int, j: int)
    requires
        0 <= i,
        j <= s.len(),
        forall|k: int| i <= k < j ==> is_digit(#[trigger] s[k]),
    ensures
        digits_value(s, i, j) >= 0,
    decreases j - i,
{
    if i < j {
        lemma_digits_value_nonneg(s, i, j - 1);
    }
}

/// Reads the octet whose digit run starts at `start`; returns its value
/// and the index just past the run, or `None` where no well-formed octet
/// starts there.
fn parse_octet(s: &str, start: usize) -> (r: Option<(u8, usize)>)
    requires
        start <= s@.len(),
    ensures
        match r {
            Some((v, j)) => {
                &&& valid_octet(s@, start as int, j as int)
                &&& v == digits_value(s@, start as int, j as int)
                &&& start < j <= s@.len()
            },
            None => !valid_octet(s@, start as int, digit_run_end(s@, start as int)),
        },
{
    let len = s.unicode_len();
    let mut j: usize = start;
    let mut val: u32 = 0;
    let mut too_big: bool = false;
    loop
        invariant
            start <= j <= len,
            len == s@.len(),
            start <= s@.len(),
            digit_run_end(s@, start as int) == digit_run_end(s@, j as int),
            forall|m: int| start <= m < j ==> is_digit(#[trigger] s@[m]),
            !too_big ==> val == digits_value(s@, start as int, j as int) && val <= 255,
            too_big ==> digits_value(s@, start as int, j as int) > 255,
        ensures
            start <= j <= len,
            j as int == digit_run_end(s@, start as int),
            forall|m: int| start <= m < j ==> is_digit(#[trigger] s@[m]),
            !too_big ==> val == digits_value(s@, start as int, j as int) && val <= 255,
            too_big ==> digits_value(s@, start as int, j as int) > 255,
        decreases len - j,
    {
        if j >= len {
            proof {
                assert(digit_run_end(s@, j as int) == j);
            }
            break;
        }
        let c = s.get_char(j);
        if !('0' <= c && c <= '9') {
            proof {
                assert(digit_run_end(s@, j as int) == j);
            }
            break;
        }
        let d: u32 = (c as u32) - ('0' as u32);
        proof {
            assert(is_digit(s@[j as int]));
            assert(d == digit_val(s@[j as int]));
            assert(digit_run_end(s@, j as int) == digit_run_end(s@, j as int + 1));
            assert(digits_value(s@, start as int, j as int + 1) == digits_value(
                s@,
                start as int,
                j as int,
            ) * 10 + d);
            if too_big {
                lemma_digits_value_nonneg(s@, start as int, j as int);
            }
        }
        if too_big || val > 25 || (val == 25 && d > 5) {
            too_big = true;
        } else {
            val = val * 10 + d;
        }
        j = j + 1;
    }
    if j == start || too_big {
        return None;
    }
    if j > start + 1 {
        let first = s.get_char(start);
        if first == '0' {
            return None;
        }
    }
    Some((val as u8, j))
}

/// Parses a dotted-quad IPv4 address from text; `None` on any malformed
/// text. The accepted form is strict: four decimal octets 0 to 255,
/// single dots between them, no superfluous leading zeroes, no other
/// characters.
pub fn parse_ipv4(s: &str) -> (r: Option<Ipv4Address>)
    ensures
        r == spec_parse_ipv4(s@),
{
    let len = s.unicode_len();
    let o1 = match parse_octet(s, 0) {
        Some(x) => x,
        None => {
            return None;
        },
    };
    if o1.1 >= len || s.get_char(o1.1) != '.' {
        return None;
    }
    let o2 = match parse_octet(s, o1.1 + 1) {
        Some(x) => x,
        None => {
            return None;
        },
    };
    if o2.1 >= len || s.get_char(o2.1) != '.' {
        return None;
    }
    let o3 = match parse_octet(s, o2.1 + 1) {
        Some(x) => x,
        None => {
            return None;
        },
    };
    if o3.1 >= len || s.get_char(o3.1) != '.' {
        return None;
    }
    let o4 = match parse_octet(s, o3.1 + 1) {
        Some(x) => x,
        None => {
            return None;
        },
    };
    if o4.1 != len {
        return None;
    }
    Some(Ipv4Address { a: o1.0, b: o2.0, c: o3.0, d: o4.0 })
}

} // verus!
