//! Network addresses as the relay sees them: four IPv4 octets and a UDP
//! port, plus the parser for the dotted-quad text form that participants
//! announce over signaling.

use vstd::prelude::*;
use crate::parse::{all_digits, dec_value, is_digit, parse_u32};

verus! {

/// An IPv4 socket address: four octets and a port. Host gating compares
/// these exactly, port included.
#[derive(Clone, Copy, PartialEq, Eq, Structural, Hash, Debug)]
pub struct NetAddr {
    pub o0: u8,
    pub o1: u8,
    pub o2: u8,
    pub o3: u8,
    pub port: u16,
}

/// A well-formed octet field of a dotted-quad: one to three digits, no
/// leading zero, value at most 255.
pub open spec fn valid_octet(s: Seq<char>) -> bool {
    &&& 1 <= s.len() <= 3
    &&& all_digits(s)
    &&& (s.len() > 1 ==> s[0] != '0')
    &&& dec_value(s) <= 255
}

/// The dots at positions `i < j < k` split `s` into four valid octets.
pub open spec fn valid_ipv4_split(s: Seq<char>, i: int, j: int, k: int) -> bool {
    &&& 0 <= i < j < k < s.len()
    &&& s[i] == '.'
    &&& s[j] == '.'
    &&& s[k] == '.'
    &&& valid_octet(s.subrange(0, i))
    &&& valid_octet(s.subrange(i + 1, j))
    &&& valid_octet(s.subrange(j + 1, k))
    &&& valid_octet(s.subrange(k + 1, s.len() as int))
}

/// `s` is a dotted-quad IPv4 address.
pub open spec fn is_ipv4(s: Seq<char>) -> bool {
    exists|i: int, j: int, k: int| valid_ipv4_split(s, i, j, k)
}

/// In a valid split, the three split points are the only dots.
proof fn lemma_split_pins_dots(s: Seq<char>, i: int, j: int, k: int)
    requires
        valid_ipv4_split(s, i, j, k),
    ensures
        forall|m: int| 0 <= m < s.len() ==> (s[m] == '.' <==> (m == i || m == j || m == k)),
{
    assert forall|m: int| 0 <= m < s.len() && s[m] == '.' implies (m == i || m == j || m == k) by {
        if m != i && m != j && m != k {
            if m < i {
                assert(s.subrange(0, i)[m] == s[m]);
                assert(is_digit(s.subrange(0, i)[m]));
            } else if m < j {
                assert(s.subrange(i + 1, j)[m - (i + 1)] == s[m]);
                assert(is_digit(s.subrange(i + 1, j)[m - (i + 1)]));
            } else if m < k {
                assert(s.subrange(j + 1, k)[m - (j + 1)] == s[m]);
                assert(is_digit(s.subrange(j + 1, k)[m - (j + 1)]));
            } else {
                assert(s.subrange(k + 1, s.len() as int)[m - (k + 1)] == s[m]);
                assert(is_digit(s.subrange(k + 1, s.len() as int)[m - (k + 1)]));
            }
            assert(!is_digit('.'));
        }
    }
}

/// A dotted-quad is pure ASCII: digits and dots only.
proof fn lemma_split_ascii(s: Seq<char>, i: int, j: int, k: int)
    requires
        valid_ipv4_split(s, i, j, k),
    ensures
        vstd::utf8::is_ascii_chars(s),
{
    lemma_split_pins_dots(s, i, j, k);
    assert forall|m: int| 0 <= m < s.len() implies '\0' <= #[trigger] s[m] <= '\u{7f}' by {
        if s[m] == '.' {
        } else {
            if m < i {
                assert(s.subrange(0, i)[m] == s[m]);
                assert(is_digit(s.subrange(0, i)[m]));
            } else if m < j {
                assert(s.subrange(i + 1, j)[m - (i + 1)] == s[m]);
                assert(is_digit(s.subrange(i + 1, j)[m - (i + 1)]));
            } else if m < k {
                assert(s.subrange(j + 1, k)[m - (j + 1)] == s[m]);
                assert(is_digit(s.subrange(j + 1, k)[m - (j + 1)]));
            } else {
                assert(s.subrange(k + 1, s.len() as int)[m - (k + 1)] == s[m]);
                assert(is_digit(s.subrange(k + 1, s.len() as int)[m - (k + 1)]));
            }
        }
    }
}

/// A dotted-quad splits in only one way.
pub proof fn lemma_split_unique(s: Seq<char>, i1: int, j1: int, k1: int, i2: int, j2: int, k2: int)
    requires
        valid_ipv4_split(s, i1, j1, k1),
        valid_ipv4_split(s, i2, j2, k2),
    ensures
        i1 == i2,
        j1 == j2,
        k1 == k2,
{
    lemma_split_pins_dots(s, i1, j1, k1);
    lemma_split_pins_dots(s, i2, j2, k2);
}

/// The address a dotted-quad denotes, together with the announced port.
/// Well defined because the split is unique.
pub open spec fn ipv4_addr_of(s: Seq<char>, port: u16) -> NetAddr
    recommends
        is_ipv4(s),
{
    let (i, j, k) = choose|i: int, j: int, k: int| valid_ipv4_split(s, i, j, k);
    NetAddr {
        o0: dec_value(s.subrange(0, i)) as u8,
        o1: dec_value(s.subrange(i + 1, j)) as u8,
        o2: dec_value(s.subrange(j + 1, k)) as u8,
        o3: dec_value(s.subrange(k + 1, s.len() as int)) as u8,
        port,
    }
}

/// First dot of `s` at or after `from`, if any.
fn find_dot(s: &str, from: usize) -> (r: Option<usize>)
    requires
        s.is_ascii(),
        from <= s@.len(),
    ensures
        r matches Some(p) ==> from <= p < s@.len() && s@[p as int] == '.' && (forall|m: int|
            from <= m < p ==> s@[m] != '.'),
        r is None ==> forall|m: int| from <= m < s@.len() ==> s@[m] != '.',
{
    proof {
        vstd::string::is_ascii_spec_bytes(s);
    }
    let bytes = s.as_bytes();
    let n = bytes.len();
    let mut p = from;
    while p < n
        invariant
            s.is_ascii(),
            n == bytes@.len(),
            n == s@.len(),
            forall|m: int| 0 <= m < n ==> #[trigger] bytes@[m] == s@[m] as u8,
            from <= p <= n,
            forall|m: int| from <= m < p ==> s@[m] != '.',
        decreases n - p,
    {
        if bytes[p] == 46 {
            assert(s@[p as int] == '.');
            return Some(p);
        }
        assert(s@[p as int] != '.');
        p = p + 1;
    }
    None
}

/// Check one field of a dotted-quad and return its value.
fn check_octet(s: &str, from: usize, to: usize) -> (r: Option<u8>)
    requires
        s.is_ascii(),
        from <= to <= s@.len(),
    ensures
        r is Some <==> valid_octet(s@.subrange(from as int, to as int)),
        r matches Some(v) ==> v == dec_value(s@.subrange(from as int, to as int)),
{
    let ghost sub = s@.subrange(from as int, to as int);
    let len = to - from;
    if len == 0 || len > 3 {
        return None;
    }
    if len > 1 && s.get_ascii(from) == 48 {
        assert(sub[0] == '0');
        return None;
    }
    proof {
        if sub.len() > 1 {
            assert(s@[from as int] as u8 != 48);
            assert(sub[0] == s@[from as int]);
        }
    }
    let part = s.substring_ascii(from, to);
    match parse_u32(part) {
        None => None,
        Some(v) => {
            if v > 255 {
                None
            } else {
                Some(v as u8)
            }
        },
    }
}

/// Parse a dotted-quad IPv4 address such as the `ip` field of an address
/// announcement. Succeeds exactly on strings made of four valid octets
/// separated by single dots; anything else is rejected.
pub fn parse_ipv4(s: &str) -> (r: Option<(u8, u8, u8, u8)>)
    ensures
        r is Some <==> is_ipv4(s@),
        r matches Some(o) ==> exists|i: int, j: int, k: int|
            {
                &&& #[trigger] valid_ipv4_split(s@, i, j, k)
                &&& o.0 == dec_value(s@.subrange(0, i))
                &&& o.1 == dec_value(s@.subrange(i + 1, j))
                &&& o.2 == dec_value(s@.subrange(j + 1, k))
                &&& o.3 == dec_value(s@.subrange(k + 1, s@.len() as int))
            },
{
    if !s.is_ascii() {
        proof {
            if is_ipv4(s@) {
                let (i, j, k) = choose|i: int, j: int, k: int| valid_ipv4_split(s@, i, j, k);
                lemma_split_ascii(s@, i, j, k);
            }
        }
        return None;
    }
    let n = s.as_bytes().len();
    proof {
        vstd::string::is_ascii_spec_bytes(s);
        assert(n == s@.len());
    }

    let p1 = match find_dot(s, 0) {
        Some(p) => p,
        None => {
            proof {
                if is_ipv4(s@) {
                    let (i, j, k) = choose|i: int, j: int, k: int| valid_ipv4_split(s@, i, j, k);
                }
            }
            return None;
        },
    };
    let p2 = match find_dot(s, p1 + 1) {
        Some(p) => p,
        None => {
            proof {
                if is_ipv4(s@) {
                    let (i, j, k) = choose|i: int, j: int, k: int| valid_ipv4_split(s@, i, j, k);
                    lemma_split_pins_dots(s@, i, j, k);
                    assert(i == p1);
                }
            }
            return None;
        },
    };
    let p3 = match find_dot(s, p2 + 1) {
        Some(p) => p,
        None => {
            proof {
                if is_ipv4(s@) {
                    let (i, j, k) = choose|i: int, j: int, k: int| valid_ipv4_split(s@, i, j, k);
                    lemma_split_pins_dots(s@, i, j, k);
                    assert(i == p1);
                    assert(j == p2);
                }
            }
            return None;
        },
    };
    if let Some(p4) = find_dot(s, p3 + 1) {
        proof {
            if is_ipv4(s@) {
                let (i, j, k) = choose|i: int, j: int, k: int| valid_ipv4_split(s@, i, j, k);
                lemma_split_pins_dots(s@, i, j, k);
                assert(i == p1);
                assert(j == p2);
                assert(k == p3);
                assert(s@[p4 as int] == '.');
            }
        }
        return None;
    }

    proof {
        if is_ipv4(s@) {
            let (i, j, k) = choose|i: int, j: int, k: int| valid_ipv4_split(s@, i, j, k);
            lemma_split_pins_dots(s@, i, j, k);
            assert(i == p1);
            assert(j == p2);
            assert(k == p3);
        }
    }
    let o0 = match check_octet(s, 0, p1) {
        Some(v) => v,
        None => {
            return None;
        },
    };
    let o1 = match check_octet(s, p1 + 1, p2) {
        Some(v) => v,
        None => {
            return None;
        },
    };
    let o2 = match check_octet(s, p2 + 1, p3) {
        Some(v) => v,
        None => {
            return None;
        },
    };
    let o3 = match check_octet(s, p3 + 1, n) {
        Some(v) => v,
        None => {
            return None;
        },
    };
    proof {
        assert(valid_ipv4_split(s@, p1 as int, p2 as int, p3 as int));
    }
    Some((o0, o1, o2, o3))
}

/// Build the socket address a participant announces: a dotted-quad `ip`
/// and a numeric `port` as they stand in the wire message. Rejected when
/// the address text is not a dotted-quad or the port does not fit a UDP
/// port number.
pub fn parse_socket_addr(ip: &str, port: u32) -> (r: Option<NetAddr>)
    ensures
        r is Some <==> is_ipv4(ip@) && port <= u16::MAX,
        r matches Some(a) ==> a == ipv4_addr_of(ip@, port as u16),
{
    if port > 65535 {
        return None;
    }
    match parse_ipv4(ip) {
        Some((o0, o1, o2, o3)) => {
            let a = NetAddr { o0, o1, o2, o3, port: port as u16 };
            proof {
                let (i, j, k) = choose|i: int, j: int, k: int|
                    {
                        &&& #[trigger] valid_ipv4_split(ip@, i, j, k)
                        &&& o0 == dec_value(ip@.subrange(0, i))
                        &&& o1 == dec_value(ip@.subrange(i + 1, j))
                        &&& o2 == dec_value(ip@.subrange(j + 1, k))
                        &&& o3 == dec_value(ip@.subrange(k + 1, ip@.len() as int))
                    };
                let (ci, cj, ck) = choose|ci: int, cj: int, ck: int|
                    valid_ipv4_split(ip@, ci, cj, ck);
                lemma_split_unique(ip@, i, j, k, ci, cj, ck);
                crate::parse::lemma_dec_value_nonneg(ip@.subrange(0, i));
                crate::parse::lemma_dec_value_nonneg(ip@.subrange(i + 1, j));
                crate::parse::lemma_dec_value_nonneg(ip@.subrange(j + 1, k));
                crate::parse::lemma_dec_value_nonneg(ip@.subrange(k + 1, ip@.len() as int));
                assert(a == ipv4_addr_of(ip@, port as u16));
            }
            Some(a)
        },
        None => None,
    }
}

} // verus!
