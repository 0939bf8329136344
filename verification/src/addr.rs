use vstd::prelude::*;
use vstd::string::StrSliceExecFns;

verus! {

/// An IPv4 address, held as its four octets.
#[derive(Clone, Copy, Debug, PartialEq, Eq, Structural)]
pub struct Ipv4Address {
    pub a: u8,
    pub b: u8,
    pub c: u8,
    pub d: u8,
}

impl Ipv4Address {
    /// Builds the address from its four octets in network order.
    pub fn from_octets(a: u8, b: u8, c: u8, d: u8) -> (r: Self)
        ensures
            r == (Ipv4Address { a, b, c, d }),
    {
        Ipv4Address { a, b, c, d }
    }
}

/// A UDP endpoint: an IPv4 address and a port.
#[derive(Clone, Copy, Debug, PartialEq, Eq, Structural)]
pub struct Ipv4Endpoint {
    pub ip: Ipv4Address,
    pub port: u16,
}

/// Whether `c` is a decimal digit.
pub open spec fn is_digit(c: char) -> bool {
    48 <= c as int && c as int <= 57
}

/// The value of the decimal digit `c`.
pub open spec fn digit_val(c: char) -> int {
    c as int - 48
}

/// Whether every character of `s` is a decimal digit.
pub open spec fn all_digits(s: Seq<char>) -> bool {
    forall|i: int| 0 <= i < s.len() ==> is_digit(#[trigger] s[i])
}

/// The value of `s` read as a decimal numeral.
pub open spec fn dec_val(s: Seq<char>) -> int
    decreases s.len(),
{
    if s.len() == 0 {
        0
    } else {
        dec_val(s.drop_last()) * 10 + digit_val(s.last())
    }
}

/// Ten to the power `n`.
pub open spec fn pow10(n: nat) -> int
    decreases n,
{
    if n == 0 {
        1
    } else {
        10 * pow10((n - 1) as nat)
    }
}

/// A decimal numeral of `n` digits is below ten to the `n`.
pub proof fn lemma_dec_val_bound(s: Seq<char>)
    requires
        all_digits(s),
    ensures
        0 <= dec_val(s) < pow10(s.len()),
    decreases s.len(),
{
    if s.len() > 0 {
        assert(forall|i: int| 0 <= i < s.drop_last().len() ==> is_digit(#[trigger] s.drop_last()[i]));
        lemma_dec_val_bound(s.drop_last());
    }
}

/// The index of the first occurrence of `c` in `s`, if any.
pub open spec fn find_char(s: Seq<char>, c: char) -> Option<int>
    decreases s.len(),
{
    if s.len() == 0 {
        None
    } else if s[0] == c {
        Some(0)
    } else {
        match find_char(s.skip(1), c) {
            Some(i) => Some(i + 1),
            None => None,
        }
    }
}

/// `find_char` names the first occurrence: the character stands there and
/// nowhere earlier, and a `None` means the character does not occur.
pub proof fn lemma_find_char(s: Seq<char>, c: char)
    ensures
        match find_char(s, c) {
            Some(i) => 0 <= i < s.len() && s[i] == c && (forall|j: int| 0 <= j < i ==> s[j] != c),
            None => forall|j: int| 0 <= j < s.len() ==> s[j] != c,
        },
    decreases s.len(),
{
    if s.len() > 0 && s[0] != c {
        lemma_find_char(s.skip(1), c);
        match find_char(s.skip(1), c) {
            Some(i) => {
                assert(s[i + 1] == s.skip(1)[i]);
                assert forall|j: int| 0 <= j < i + 1 implies s[j] != c by {
                    if j >= 1 {
                        assert(s[j] == s.skip(1)[j - 1]);
                    }
                }
            },
            None => {
                assert forall|j: int| 0 <= j < s.len() implies s[j] != c by {
                    if j >= 1 {
                        assert(s[j] == s.skip(1)[j - 1]);
                    }
                }
            },
        }
    }
}

/// A valid dotted-quad component: one to three digits with value at most 255.
pub open spec fn valid_octet(s: Seq<char>) -> bool {
    1 <= s.len() <= 3 && all_digits(s) && dec_val(s) <= 255
}

/// A valid port numeral: one to five digits with value at most 65535.
pub open spec fn valid_port(s: Seq<char>) -> bool {
    1 <= s.len() <= 5 && all_digits(s) && dec_val(s) <= 65535
}

/// The meaning of `s` as a dotted-quad IPv4 address, if it is one.
pub open spec fn spec_parse_ipv4(s: Seq<char>) -> Option<Ipv4Address> {
    match find_char(s, '.') {
        None => None,
        Some(i1) => {
            let o1 = s.take(i1);
            let r1 = s.skip(i1 + 1);
            match find_char(r1, '.') {
                None => None,
                Some(i2) => {
                    let o2 = r1.take(i2);
                    let r2 = r1.skip(i2 + 1);
                    match find_char(r2, '.') {
                        None => None,
                        Some(i3) => {
                            let o3 = r2.take(i3);
                            let o4 = r2.skip(i3 + 1);
                            if valid_octet(o1) && valid_octet(o2) && valid_octet(o3) && valid_octet(
                                o4,
                            ) {
                                Some(
                                    Ipv4Address {
                                        a: dec_val(o1) as u8,
                                        b: dec_val(o2) as u8,
                                        c: dec_val(o3) as u8,
                                        d: dec_val(o4) as u8,
                                    },
                                )
                            } else {
                                None
                            }
                        },
                    }
                },
            }
        },
    }
}

/// The meaning of `s` as an `ip:port` endpoint, if it is one: a dotted-quad
/// IPv4 address, a colon, and a port numeral.
pub open spec fn spec_parse_endpoint(s: Seq<char>) -> Option<Ipv4Endpoint> {
    match find_char(s, ':') {
        None => None,
        Some(ci) => {
            let ip_part = s.take(ci);
            let port_part = s.skip(ci + 1);
            match spec_parse_ipv4(ip_part) {
                None => None,
                Some(ip) => if valid_port(port_part) {
                    Some(Ipv4Endpoint { ip, port: dec_val(port_part) as u16 })
                } else {
                    None
                },
            }
        },
    }
}

/// Finds the first occurrence of `c` in `s` between `from` and `to`.
fn scan_for(s: &str, from: usize, to: usize, c: char) -> (r: Option<usize>)
    requires
        from <= to <= s@.len(),
    ensures
        match find_char(s@.subrange(from as int, to as int), c) {
            Some(i) => 0 <= i && from + i < to && r == Some((from + i) as usize),
            None => r is None,
        },
{
    let ghost sub = s@.subrange(from as int, to as int);
    let mut j = from;
    while j < to
        invariant
            from <= j <= to <= s@.len(),
            sub == s@.subrange(from as int, to as int),
            forall|k: int| from <= k < j ==> s@[k] != c,
        decreases to - j,
    {
        if s.get_char(j) == c {
            proof {
                lemma_find_char(sub, c);
                assert(sub[j - from] == s@[j as int]);
                match find_char(sub, c) {
                    Some(i) => {
                        assert(sub[i] == s@[from + i]);
                        assert(i >= j - from);
                        assert(i <= j - from);
                    },
                    None => {
                        assert(false);
                    },
                }
            }
            return Some(j);
        }
        j += 1;
    }
    proof {
        lemma_find_char(sub, c);
        match find_char(sub, c) {
            Some(i) => {
                assert(sub[i] == s@[from + i]);
                assert(false);
            },
            None => {},
        }
    }
    None
}

/// Reads the characters of `s` between `from` and `to` as a decimal numeral
/// of at most `max_len` digits and value at most `max_val`.
fn parse_decimal(s: &str, from: usize, to: usize, max_len: usize, max_val: u32) -> (r: Option<u32>)
    requires
        from <= to <= s@.len(),
        1 <= max_len <= 5,
    ensures
        ({
            let sub = s@.subrange(from as int, to as int);
            if 1 <= sub.len() <= max_len && all_digits(sub) && dec_val(sub) <= max_val {
                r == Some(dec_val(sub) as u32)
            } else {
                r is None
            }
        }),
{
    let ghost sub = s@.subrange(from as int, to as int);
    let len = to - from;
    if len == 0 || len > max_len {
        return None;
    }
    let mut acc: u32 = 0;
    let mut j = from;
    while j < to
        invariant
            from <= j <= to <= s@.len(),
            1 <= to - from <= max_len <= 5,
            sub == s@.subrange(from as int, to as int),
            all_digits(s@.subrange(from as int, j as int)),
            acc == dec_val(s@.subrange(from as int, j as int)),
            acc <= 99999,
        decreases to - j,
    {
        let ch = s.get_char(j);
        let d = ch as u32;
        if d < 48 || d > 57 {
            proof {
                assert(sub[j - from] == s@[j as int]);
                assert(!is_digit(sub[j - from]));
            }
            return None;
        }
        proof {
            let win = s@.subrange(from as int, j as int);
            lemma_dec_val_bound(win);
            assert(pow10(0) == 1);
            assert(pow10(1) == 10);
            assert(pow10(2) == 100);
            assert(pow10(3) == 1000);
            assert(pow10(4) == 10000);
            assert(win.len() <= 4);
            assert(dec_val(win) < 10000);
        }
        acc = acc * 10 + (d - 48);
        j += 1;
        proof {
            let prev = s@.subrange(from as int, j - 1);
            let win = s@.subrange(from as int, j as int);
            assert(win.drop_last() =~= prev);
            assert(win.last() == s@[j - 1]);
            assert(forall|k: int| 0 <= k < win.len() ==> win[k] == s@[from + k]);
        }
    }
    proof {
        assert(s@.subrange(from as int, j as int) =~= sub);
    }
    if acc > max_val {
        return None;
    }
    Some(acc)
}

/// Reads the characters of `s` between `from` and `to` as a dotted-quad
/// IPv4 address, exactly as `spec_parse_ipv4` gives its meaning.
fn parse_ipv4_range(s: &str, from: usize, to: usize) -> (r: Option<Ipv4Address>)
    requires
        from <= to <= s@.len(),
    ensures
        r == spec_parse_ipv4(s@.subrange(from as int, to as int)),
{
    let ghost sub = s@.subrange(from as int, to as int);
    let p1 = match scan_for(s, from, to, '.') {
        None => { return None; },
        Some(p) => p,
    };
    proof {
        assert(sub.take(p1 - from) =~= s@.subrange(from as int, p1 as int));
        assert(sub.skip(p1 - from + 1) =~= s@.subrange(p1 + 1, to as int));
    }
    let ghost r1 = sub.skip(p1 - from + 1);
    let p2 = match scan_for(s, p1 + 1, to, '.') {
        None => { return None; },
        Some(p) => p,
    };
    proof {
        assert(r1.take(p2 - (p1 + 1)) =~= s@.subrange(p1 + 1, p2 as int));
        assert(r1.skip(p2 - (p1 + 1) + 1) =~= s@.subrange(p2 + 1, to as int));
    }
    let ghost r2 = r1.skip(p2 - (p1 + 1) + 1);
    let p3 = match scan_for(s, p2 + 1, to, '.') {
        None => { return None; },
        Some(p) => p,
    };
    proof {
        assert(r2.take(p3 - (p2 + 1)) =~= s@.subrange(p2 + 1, p3 as int));
        assert(r2.skip(p3 - (p2 + 1) + 1) =~= s@.subrange(p3 + 1, to as int));
    }
    let o1 = parse_decimal(s, from, p1, 3, 255);
    let o2 = parse_decimal(s, p1 + 1, p2, 3, 255);
    let o3 = parse_decimal(s, p2 + 1, p3, 3, 255);
    let o4 = parse_decimal(s, p3 + 1, to, 3, 255);
    if o1.is_none() || o2.is_none() || o3.is_none() || o4.is_none() {
        return None;
    }
    let a = o1.unwrap();
    let b = o2.unwrap();
    let c = o3.unwrap();
    let d = o4.unwrap();
    proof {
        let go1 = sub.take(p1 - from);
        let go2 = r1.take(p2 - (p1 + 1));
        let go3 = r2.take(p3 - (p2 + 1));
        let go4 = r2.skip(p3 - (p2 + 1) + 1);
        lemma_dec_val_bound(go1);
        lemma_dec_val_bound(go2);
        lemma_dec_val_bound(go3);
        lemma_dec_val_bound(go4);
        assert(valid_octet(go1) && a == dec_val(go1));
        assert(valid_octet(go2) && b == dec_val(go2));
        assert(valid_octet(go3) && c == dec_val(go3));
        assert(valid_octet(go4) && d == dec_val(go4));
        assert(a <= 255 && b <= 255 && c <= 255 && d <= 255);
    }
    Some(Ipv4Address { a: a as u8, b: b as u8, c: c as u8, d: d as u8 })
}

/// Reads `s` as an `ip:port` endpoint, exactly as `spec_parse_endpoint`
/// gives its meaning; a malformed string reads as nothing.
pub fn parse_endpoint(s: &str) -> (r: Option<Ipv4Endpoint>)
    ensures
        r == spec_parse_endpoint(s@),
{
    let n = s.unicode_len();
    proof {
        assert(s@.subrange(0, s@.len() as int) =~= s@);
    }
    let ci = match scan_for(s, 0, n, ':') {
        None => { return None; },
        Some(p) => p,
    };
    proof {
        assert(s@.take(ci as int) =~= s@.subrange(0, ci as int));
        assert(s@.skip(ci + 1) =~= s@.subrange(ci + 1, n as int));
    }
    let ip = match parse_ipv4_range(s, 0, ci) {
        None => { return None; },
        Some(ip) => ip,
    };
    match parse_decimal(s, ci + 1, n, 5, 65535) {
        None => None,
        Some(p) => {
            proof {
                let gport = s@.skip(ci + 1);
                lemma_dec_val_bound(gport);
                assert(valid_port(gport) && p == dec_val(gport));
                assert(p <= 65535);
            }
            Some(Ipv4Endpoint { ip, port: p as u16 })
        },
    }
}

} // verus!
