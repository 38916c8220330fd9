//! IPv4 addresses and `IP:PORT` endpoints: their textual form, parsing and
//! prefix masks.
use vstd::prelude::*;

use crate::text;

verus! {

/// An IPv4 address, one field per octet in network order.
#[derive(Clone, Copy, PartialEq, Eq, Structural, Debug)]
pub struct Ipv4 {
    pub a: u8,
    pub b: u8,
    pub c: u8,
    pub d: u8,
}

/// An IPv4 address with a UDP port.
#[derive(Clone, Copy, PartialEq, Eq, Structural, Debug)]
pub struct Endpoint {
    pub ip: Ipv4,
    pub port: u16,
}

impl Ipv4 {
    /// The address as a 32-bit number, first octet most significant.
    pub open spec fn bits(self) -> u32 {
        ((self.a as u32) << 24u32) | ((self.b as u32) << 16u32) | ((self.c as u32) << 8u32) | (
        self.d as u32)
    }

    /// The address `0.0.0.0`.
    pub open spec fn is_unspecified_spec(self) -> bool {
        self.a == 0 && self.b == 0 && self.c == 0 && self.d == 0
    }

    pub fn new(a: u8, b: u8, c: u8, d: u8) -> (r: Ipv4)
        ensures
            r == (Ipv4 { a, b, c, d }),
    {
        Ipv4 { a, b, c, d }
    }

    /// The unspecified address `0.0.0.0`.
    pub fn unspecified() -> (r: Ipv4)
        ensures
            r.is_unspecified_spec(),
    {
        Ipv4 { a: 0, b: 0, c: 0, d: 0 }
    }

    /// Whether this is `0.0.0.0`.
    pub fn is_unspecified(&self) -> (r: bool)
        ensures
            r == self.is_unspecified_spec(),
    {
        self.a == 0 && self.b == 0 && self.c == 0 && self.d == 0
    }

    /// The address whose 32-bit number is `n`.
    pub fn from_bits(n: u32) -> (r: Ipv4)
        ensures
            r == ipv4_of_bits(n),
            r.bits() == n,
    {
        let a = (n >> 24u32) as u8;
        let b = ((n >> 16u32) & 0xffu32) as u8;
        let c = ((n >> 8u32) & 0xffu32) as u8;
        let d = (n & 0xffu32) as u8;
        assert((((((n >> 24u32) as u8) as u32) << 24u32) | (((((n >> 16u32) & 0xffu32) as u8) as u32)
            << 16u32) | (((((n >> 8u32) & 0xffu32) as u8) as u32) << 8u32) | (((n & 0xffu32) as u8)
            as u32)) == n) by (bit_vector);
        Ipv4 { a, b, c, d }
    }

    /// The address as a 32-bit number, first octet most significant.
    pub fn to_bits(&self) -> (r: u32)
        ensures
            r == self.bits(),
    {
        ((self.a as u32) << 24u32) | ((self.b as u32) << 16u32) | ((self.c as u32) << 8u32) | (
        self.d as u32)
    }
}

/// The address whose 32-bit number is `n`, first octet most significant.
pub open spec fn ipv4_of_bits(n: u32) -> Ipv4 {
    Ipv4 {
        a: (n >> 24u32) as u8,
        b: ((n >> 16u32) & 0xffu32) as u8,
        c: ((n >> 8u32) & 0xffu32) as u8,
        d: (n & 0xffu32) as u8,
    }
}

/// The dotted-decimal text of an address, as `Ipv4Addr`'s `Display` writes it
/// and the only text its `FromStr` accepts for it.
pub open spec fn ipv4_text(ip: Ipv4) -> Seq<char> {
    text::dec(ip.a as nat) + seq!['.'] + text::dec(ip.b as nat) + seq!['.'] + text::dec(ip.c as nat) + seq!['.']
        + text::dec(ip.d as nat)
}

/// The address whose text is `s`, if there is one.
pub open spec fn ipv4_from_text(s: Seq<char>) -> Option<Ipv4> {
    if exists|ip: Ipv4| ipv4_text(ip) == s {
        Some(choose|ip: Ipv4| ipv4_text(ip) == s)
    } else {
        None
    }
}

/// Appends the dotted-decimal text of `ip` to `out`.
pub fn push_ipv4(out: &mut String, ip: Ipv4)
    ensures
        final(out)@ == old(out)@ + ipv4_text(ip),
{
    text::push_decimal(out, ip.a as u32);
    text::push_char(out, '.');
    text::push_decimal(out, ip.b as u32);
    text::push_char(out, '.');
    text::push_decimal(out, ip.c as u32);
    text::push_char(out, '.');
    text::push_decimal(out, ip.d as u32);
    assert(final(out)@ =~= old(out)@ + ipv4_text(ip));
}

/// The dotted-decimal text of `ip`.
pub fn format_ipv4(ip: Ipv4) -> (r: String)
    ensures
        r@ == ipv4_text(ip),
{
    let mut r = String::new();
    push_ipv4(&mut r, ip);
    assert(Seq::<char>::empty() + ipv4_text(ip) =~= ipv4_text(ip));
    r
}

/// Appends the `IP:PORT` text of `ep` to `out`.
pub fn push_endpoint(out: &mut String, ep: Endpoint)
    ensures
        final(out)@ == old(out)@ + endpoint_text(ep),
{
    push_ipv4(out, ep.ip);
    text::push_char(out, ':');
    text::push_decimal(out, ep.port as u32);
    assert(final(out)@ =~= old(out)@ + endpoint_text(ep));
}

/// Where the three dots and four octets sit in the text of an address.
pub proof fn lemma_ipv4_text_layout(ip: Ipv4)
    ensures
        ({
            let t = ipv4_text(ip);
            let la = text::dec(ip.a as nat).len() as int;
            let lb = text::dec(ip.b as nat).len() as int;
            let lc = text::dec(ip.c as nat).len() as int;
            &&& 1 <= la <= 3 && 1 <= lb <= 3 && 1 <= lc <= 3
            &&& t.len() == la + lb + lc + text::dec(ip.d as nat).len() + 3
            &&& text::index_of(t, '.') == la
            &&& t.subrange(0, la) == text::dec(ip.a as nat)
            &&& text::index_of(t.skip(la + 1), '.') == lb
            &&& t.subrange(la + 1, la + 1 + lb) == text::dec(ip.b as nat)
            &&& text::index_of(t.skip(la + lb + 2), '.') == lc
            &&& t.subrange(la + lb + 2, la + lb + lc + 2) == text::dec(ip.c as nat)
            &&& t.skip(la + lb + lc + 3) == text::dec(ip.d as nat)
            &&& forall|j: int| 0 <= j < t.len() ==> t[j] == '.' || text::is_digit(#[trigger] t[j])
        }),
{
    text::lemma_dec(ip.a as nat);
    text::lemma_dec(ip.b as nat);
    text::lemma_dec(ip.c as nat);
    text::lemma_dec(ip.d as nat);
    let da = text::dec(ip.a as nat);
    let db = text::dec(ip.b as nat);
    let dc = text::dec(ip.c as nat);
    let dd = text::dec(ip.d as nat);
    let t = ipv4_text(ip);
    let la = da.len() as int;
    let lb = db.len() as int;
    let lc = dc.len() as int;
    let dot = seq!['.'];
    assert(t == da + dot + db + dot + dc + dot + dd);
    let t1 = t.skip(la + 1);
    let t2 = t.skip(la + lb + 2);
    assert(t1 =~= db + dot + dc + dot + dd);
    assert(t2 =~= dc + dot + dd);
    assert(t.subrange(0, la) =~= da);
    assert(t.subrange(la + 1, la + 1 + lb) =~= db);
    assert(t.subrange(la + lb + 2, la + lb + lc + 2) =~= dc);
    assert(t.skip(la + lb + lc + 3) =~= dd);
    assert forall|j: int| 0 <= j < la implies t[j] != '.' by {
        assert(t[j] == da[j]);
    }
    text::lemma_index_of(t, '.', la);
    assert forall|j: int| 0 <= j < lb implies t1[j] != '.' by {
        assert(t1[j] == db[j]);
    }
    text::lemma_index_of(t1, '.', lb);
    assert forall|j: int| 0 <= j < lc implies t2[j] != '.' by {
        assert(t2[j] == dc[j]);
    }
    text::lemma_index_of(t2, '.', lc);
    assert forall|j: int| 0 <= j < t.len() implies t[j] == '.' || text::is_digit(#[trigger] t[j]) by {
        if j < la {
            assert(t[j] == da[j]);
        } else if j == la {
        } else if j < la + 1 + lb {
            assert(t[j] == db[j - la - 1]);
        } else if j == la + 1 + lb {
        } else if j < la + lb + 2 + lc {
            assert(t[j] == dc[j - la - lb - 2]);
        } else if j == la + lb + 2 + lc {
        } else {
            assert(t[j] == dd[j - la - lb - lc - 3]);
        }
    }
}

/// Two addresses with the same text are the same address.
pub proof fn lemma_ipv4_text_injective(x: Ipv4, y: Ipv4)
    requires
        ipv4_text(x) == ipv4_text(y),
    ensures
        x == y,
{
    lemma_ipv4_text_layout(x);
    lemma_ipv4_text_layout(y);
    text::lemma_dec(x.a as nat);
    text::lemma_dec(y.a as nat);
    text::lemma_dec(x.b as nat);
    text::lemma_dec(y.b as nat);
    text::lemma_dec(x.c as nat);
    text::lemma_dec(y.c as nat);
    text::lemma_dec(x.d as nat);
    text::lemma_dec(y.d as nat);
}

/// Parses `v[lo..hi]` as one decimal octet: one to three digits, no leading
/// zero, at most 255.
pub fn parse_octet(v: &[char], lo: usize, hi: usize) -> (r: Option<u8>)
    requires
        lo <= hi <= v@.len(),
    ensures
        r matches Some(x) ==> v@.subrange(lo as int, hi as int) == text::dec(x as nat),
        r is None ==> forall|x: u8| v@.subrange(lo as int, hi as int) != text::dec(x as nat),
{
    let ghost s = v@.subrange(lo as int, hi as int);
    if hi == lo || hi - lo > 3 || (hi - lo > 1 && v[lo] == '0') {
        proof {
            assert forall|x: u8| s != text::dec(x as nat) by {
                text::lemma_dec(x as nat);
                if s == text::dec(x as nat) && hi - lo > 1 {
                    assert(s[0] == v@[lo as int]);
                }
            }
        }
        return None;
    }
    match text::digit_run_value(v, lo, hi, 255) {
        Some(x) => {
            proof {
                assert(s[0] == v@[lo as int]);
                text::lemma_canonical_digits(s);
            }
            Some(x as u8)
        },
        None => {
            proof {
                assert forall|x: u8| s != text::dec(x as nat) by {
                    text::lemma_dec(x as nat);
                }
            }
            None
        },
    }
}

/// Where the dots and octets of an address text sit inside `v`.
proof fn lemma_ipv4_positions(v: Seq<char>, lo: int, hi: int, ip: Ipv4)
    requires
        0 <= lo <= hi <= v.len(),
        v.subrange(lo, hi) == ipv4_text(ip),
    ensures
        ({
            let la = text::dec(ip.a as nat).len() as int;
            let lb = text::dec(ip.b as nat).len() as int;
            let lc = text::dec(ip.c as nat).len() as int;
            &&& lo + la + lb + lc + 3 <= hi
            &&& text::index_of(v.subrange(lo, hi), '.') == la
            &&& v.subrange(lo, lo + la) == text::dec(ip.a as nat)
            &&& text::index_of(v.subrange(lo + la + 1, hi), '.') == lb
            &&& v.subrange(lo + la + 1, lo + la + 1 + lb) == text::dec(ip.b as nat)
            &&& text::index_of(v.subrange(lo + la + lb + 2, hi), '.') == lc
            &&& v.subrange(lo + la + lb + 2, lo + la + lb + lc + 2) == text::dec(ip.c as nat)
            &&& v.subrange(lo + la + lb + lc + 3, hi) == text::dec(ip.d as nat)
        }),
{
    lemma_ipv4_text_layout(ip);
    let s = v.subrange(lo, hi);
    let la = text::dec(ip.a as nat).len() as int;
    let lb = text::dec(ip.b as nat).len() as int;
    let lc = text::dec(ip.c as nat).len() as int;
    assert(v.subrange(lo, lo + la) =~= s.subrange(0, la));
    assert(v.subrange(lo + la + 1, hi) =~= s.skip(la + 1));
    assert(v.subrange(lo + la + 1, lo + la + 1 + lb) =~= s.subrange(la + 1, la + 1 + lb));
    assert(v.subrange(lo + la + lb + 2, hi) =~= s.skip(la + lb + 2));
    assert(v.subrange(lo + la + lb + 2, lo + la + lb + lc + 2) =~= s.subrange(
        la + lb + 2,
        la + lb + lc + 2,
    ));
    assert(v.subrange(lo + la + lb + lc + 3, hi) =~= s.skip(la + lb + lc + 3));
}

/// Parses `v[lo..hi]` as a dotted-decimal IPv4 address.
pub fn parse_ipv4_chars(v: &[char], lo: usize, hi: usize) -> (r: Option<Ipv4>)
    requires
        lo <= hi <= v@.len(),
    ensures
        r matches Some(ip) ==> v@.subrange(lo as int, hi as int) == ipv4_text(ip),
        r is None ==> forall|ip: Ipv4| v@.subrange(lo as int, hi as int) != ipv4_text(ip),
{
    let ghost s = v@.subrange(lo as int, hi as int);
    let d1 = text::find_char(v, lo, hi, '.');
    if d1 == hi {
        proof {
            assert forall|ip: Ipv4| s != ipv4_text(ip) by {
                if s == ipv4_text(ip) {
                    lemma_ipv4_positions(v@, lo as int, hi as int, ip);
                }
            }
        }
        return None;
    }
    let a = match parse_octet(v, lo, d1) {
        Some(x) => x,
        None => {
            proof {
                assert forall|ip: Ipv4| s != ipv4_text(ip) by {
                    if s == ipv4_text(ip) {
                        lemma_ipv4_positions(v@, lo as int, hi as int, ip);
                    }
                }
            }
            return None;
        },
    };
    let d2 = text::find_char(v, d1 + 1, hi, '.');
    if d2 == hi {
        proof {
            assert forall|ip: Ipv4| s != ipv4_text(ip) by {
                if s == ipv4_text(ip) {
                    lemma_ipv4_positions(v@, lo as int, hi as int, ip);
                }
            }
        }
        return None;
    }
    let b = match parse_octet(v, d1 + 1, d2) {
        Some(x) => x,
        None => {
            proof {
                assert forall|ip: Ipv4| s != ipv4_text(ip) by {
                    if s == ipv4_text(ip) {
                        lemma_ipv4_positions(v@, lo as int, hi as int, ip);
                    }
                }
            }
            return None;
        },
    };
    let d3 = text::find_char(v, d2 + 1, hi, '.');
    if d3 == hi {
        proof {
            assert forall|ip: Ipv4| s != ipv4_text(ip) by {
                if s == ipv4_text(ip) {
                    lemma_ipv4_positions(v@, lo as int, hi as int, ip);
                }
            }
        }
        return None;
    }
    let c = match parse_octet(v, d2 + 1, d3) {
        Some(x) => x,
        None => {
            proof {
                assert forall|ip: Ipv4| s != ipv4_text(ip) by {
                    if s == ipv4_text(ip) {
                        lemma_ipv4_positions(v@, lo as int, hi as int, ip);
                    }
                }
            }
            return None;
        },
    };
    let d = match parse_octet(v, d3 + 1, hi) {
        Some(x) => x,
        None => {
            proof {
                assert forall|ip: Ipv4| s != ipv4_text(ip) by {
                    if s == ipv4_text(ip) {
                        lemma_ipv4_positions(v@, lo as int, hi as int, ip);
                    }
                }
            }
            return None;
        },
    };
    let ip = Ipv4 { a, b, c, d };
    assert(s =~= v@.subrange(lo as int, d1 as int) + seq!['.'] + v@.subrange(d1 + 1, d2 as int)
        + seq!['.'] + v@.subrange(d2 + 1, d3 as int) + seq!['.'] + v@.subrange(d3 + 1, hi as int));
    Some(ip)
}

/// Parses a dotted-decimal IPv4 address, accepting exactly what
/// `Ipv4Addr::from_str` accepts.
pub fn parse_ipv4(s: &str) -> (r: Option<Ipv4>)
    ensures
        r == ipv4_from_text(s@),
        r matches Some(ip) ==> s@ == ipv4_text(ip),
        r is None ==> forall|ip: Ipv4| s@ != ipv4_text(ip),
{
    let v = text::chars_of(s);
    assert(v@.subrange(0, v@.len() as int) =~= v@);
    let r = parse_ipv4_chars(v.as_slice(), 0, v.len());
    proof {
        lemma_ipv4_from_text(s@, r);
    }
    r
}

/// A parse result that meets the contract of `parse_ipv4_chars` is `ipv4_from_text`.
pub proof fn lemma_ipv4_from_text(s: Seq<char>, r: Option<Ipv4>)
    requires
        r matches Some(ip) ==> s == ipv4_text(ip),
        r is None ==> forall|ip: Ipv4| s != ipv4_text(ip),
    ensures
        r == ipv4_from_text(s),
{
    if let Some(ip) = r {
        assert(ipv4_text(ip) == s);
        let other = choose|x: Ipv4| ipv4_text(x) == s;
        lemma_ipv4_text_injective(ip, other);
    }
}

/// The value of a port text: one or more ASCII digits, at most 65535; leading
/// zeros are allowed, as `SocketAddrV4::from_str` allows them.
pub open spec fn port_value(t: Seq<char>) -> Option<nat> {
    if t.len() > 0 && text::all_digits(t) && text::digits_value(t) <= 65535 {
        Some(text::digits_value(t))
    } else {
        None
    }
}

/// `s` is the text `IP:PORT` of `ep`, in a form `SocketAddrV4::from_str` accepts.
pub open spec fn is_socket_v4_text(s: Seq<char>, ep: Endpoint) -> bool {
    let k = ipv4_text(ep.ip).len() as int;
    &&& k < s.len()
    &&& s.take(k) == ipv4_text(ep.ip)
    &&& s[k] == ':'
    &&& port_value(s.skip(k + 1)) == Some(ep.port as nat)
}

/// Some endpoint has `s` as its `IP:PORT` text.
pub open spec fn is_socket_v4(s: Seq<char>) -> bool {
    exists|ep: Endpoint| is_socket_v4_text(s, ep)
}

/// The canonical `IP:PORT` text of an endpoint.
pub open spec fn endpoint_text(ep: Endpoint) -> Seq<char> {
    ipv4_text(ep.ip) + seq![':'] + text::dec(ep.port as nat)
}

/// The endpoint whose `IP:PORT` text is `s`, if there is one.
pub open spec fn socket_v4_from_text(s: Seq<char>) -> Option<Endpoint> {
    if is_socket_v4(s) {
        Some(choose|ep: Endpoint| is_socket_v4_text(s, ep))
    } else {
        None
    }
}

/// Parses `v[lo..hi]` as `IP:PORT`.
pub fn parse_socket_v4_chars(v: &[char], lo: usize, hi: usize) -> (r: Option<Endpoint>)
    requires
        lo <= hi <= v@.len(),
    ensures
        r matches Some(ep) ==> is_socket_v4_text(v@.subrange(lo as int, hi as int), ep),
        r is None ==> !is_socket_v4(v@.subrange(lo as int, hi as int)),
{
    let ghost s = v@.subrange(lo as int, hi as int);
    let k = text::find_char(v, lo, hi, ':');
    let ip = if k < hi {
        parse_ipv4_chars(v, lo, k)
    } else {
        None
    };
    let port = if k < hi {
        text::digit_run_value(v, k + 1, hi, 65535)
    } else {
        None
    };
    match (ip, port) {
        (Some(ip), Some(port)) => {
            let ep = Endpoint { ip, port: port as u16 };
            assert(s.take(k - lo) =~= v@.subrange(lo as int, k as int));
            assert(s.skip(k - lo + 1) =~= v@.subrange(k + 1, hi as int));
            assert(s[k - lo] == v@[k as int]);
            Some(ep)
        },
        _ => {
            proof {
                assert forall|ep: Endpoint| !is_socket_v4_text(s, ep) by {
                    if is_socket_v4_text(s, ep) {
                        let t = ipv4_text(ep.ip);
                        let kk = t.len() as int;
                        lemma_ipv4_text_layout(ep.ip);
                        assert forall|j: int| lo <= j < lo + kk implies v@[j] != ':' by {
                            assert(v@[j] == t[j - lo]);
                        }
                        assert(v@[lo + kk] == s[kk]);
                        assert(k == lo + kk);
                        assert(v@.subrange(lo as int, k as int) =~= t);
                        assert(v@.subrange(k + 1, hi as int) =~= s.skip(kk + 1));
                    }
                }
            }
            None
        },
    }
}

/// A socket address as `SocketAddr::from_str` classifies it.
#[derive(Clone, Copy, PartialEq, Eq, Structural, Debug)]
pub enum ParsedAddr {
    /// An `IP:PORT` IPv4 endpoint.
    V4(Endpoint),
    /// A valid IPv6 socket address, `[IPv6]:PORT`.
    V6,
}

/// How `SocketAddr::from_str` reads `s`: the IPv4 form first, then the IPv6
/// form. Whether `s` is a valid IPv6 socket address is `parses_as_v6`.
pub open spec fn parse_socket_addr_spec(s: Seq<char>, parses_as_v6: bool, r: Option<ParsedAddr>) -> bool {
    match r {
        Some(ParsedAddr::V4(ep)) => is_socket_v4_text(s, ep),
        Some(ParsedAddr::V6) => !is_socket_v4(s) && parses_as_v6,
        None => !is_socket_v4(s) && !parses_as_v6,
    }
}

/// Classifies `s` as `SocketAddr::from_str` would, given whether
/// `SocketAddrV6::from_str` accepts it (`parses_as_v6`); the IPv4 form is
/// checked here and wins over the IPv6 one.
pub fn parse_socket_addr(s: &str, parses_as_v6: bool) -> (r: Option<ParsedAddr>)
    ensures
        parse_socket_addr_spec(s@, parses_as_v6, r),
        r matches Some(ParsedAddr::V4(ep)) ==> socket_v4_from_text(s@) == Some(ep),
{
    let v = text::chars_of(s);
    assert(v@.subrange(0, v@.len() as int) =~= v@);
    match parse_socket_v4_chars(v.as_slice(), 0, v.len()) {
        Some(ep) => {
            proof {
                let other = choose|e: Endpoint| is_socket_v4_text(s@, e);
                lemma_socket_v4_text_unique(s@, ep, other);
            }
            Some(ParsedAddr::V4(ep))
        },
        None => {
            if parses_as_v6 {
                Some(ParsedAddr::V6)
            } else {
                None
            }
        },
    }
}

/// The subnet mask of a prefix length, as a 32-bit number.
pub open spec fn mask_bits(prefix: u8) -> u32 {
    if prefix == 0 {
        0
    } else {
        0xffff_ffffu32 << ((32 - prefix) as u32)
    }
}

/// The dotted-decimal subnet mask of a prefix length, e.g. 24 gives 255.255.255.0.
pub fn prefix_to_mask(prefix: u8) -> (r: Ipv4)
    requires
        prefix <= 32,
    ensures
        r == ipv4_of_bits(mask_bits(prefix)),
        r.bits() == mask_bits(prefix),
{
    if prefix == 0 {
        return Ipv4::from_bits(0);
    }
    let bits = 0xffff_ffffu32 << (32 - prefix as u32);
    Ipv4::from_bits(bits)
}

/// A prefix mask holds exactly `prefix` one bits, all above its zero bits:
/// bit `i` (counted from the least significant) is set iff `i >= 32 - prefix`.
pub proof fn lemma_mask_bits(prefix: u8, i: u32)
    requires
        prefix <= 32,
        i < 32,
    ensures
        ((mask_bits(prefix) >> i) & 1u32 == 1u32) == (i + prefix >= 32),
{
    if prefix == 0 {
        assert(((0u32 >> i) & 1u32 == 1u32) == false) by (bit_vector);
    } else {
        let sh = (32 - prefix) as u32;
        assert(1 <= prefix <= 32 && sh == 32 - prefix && i < 32 ==> (((0xffff_ffffu32 << sh)
            >> i) & 1u32 == 1u32) == (i + prefix >= 32)) by (bit_vector);
    }
}

/// Reading the text of an address gives the address back.
pub proof fn lemma_ipv4_text_roundtrip(ip: Ipv4, other: Ipv4)
    ensures
        ipv4_text(ip) == ipv4_text(other) <==> ip == other,
{
    if ipv4_text(ip) == ipv4_text(other) {
        lemma_ipv4_text_injective(ip, other);
    }
}

/// The canonical text of an endpoint is read back as that endpoint, and as no other.
pub proof fn lemma_endpoint_text_roundtrip(ep: Endpoint, other: Endpoint)
    ensures
        is_socket_v4_text(endpoint_text(ep), ep),
        is_socket_v4_text(endpoint_text(ep), other) ==> other == ep,
{
    let s = endpoint_text(ep);
    let t = ipv4_text(ep.ip);
    let k = t.len() as int;
    text::lemma_dec(ep.port as nat);
    assert(s.take(k) =~= t);
    assert(s.skip(k + 1) =~= text::dec(ep.port as nat));
    if is_socket_v4_text(s, other) {
        lemma_socket_v4_text_unique(s, ep, other);
    }
}

/// The text of an address holds no colon.
pub proof fn lemma_ipv4_text_no_colon(ip: Ipv4)
    ensures
        forall|j: int| 0 <= j < ipv4_text(ip).len() ==> #[trigger] ipv4_text(ip)[j] != ':',
{
    lemma_ipv4_text_layout(ip);
    let t = ipv4_text(ip);
    assert forall|j: int| 0 <= j < t.len() implies #[trigger] t[j] != ':' by {
        assert(t[j] == '.' || text::is_digit(t[j]));
    }
}

/// At most one endpoint has a given `IP:PORT` text.
pub proof fn lemma_socket_v4_text_unique(s: Seq<char>, x: Endpoint, y: Endpoint)
    requires
        is_socket_v4_text(s, x),
        is_socket_v4_text(s, y),
    ensures
        x == y,
{
    let tx = ipv4_text(x.ip);
    let ty = ipv4_text(y.ip);
    lemma_ipv4_text_no_colon(x.ip);
    lemma_ipv4_text_no_colon(y.ip);
    if tx.len() < ty.len() {
        assert(s.take(ty.len() as int)[tx.len() as int] == ty[tx.len() as int]);
        assert(false);
    } else if ty.len() < tx.len() {
        assert(s.take(tx.len() as int)[ty.len() as int] == tx[ty.len() as int]);
        assert(false);
    }
    assert(tx == ty);
    lemma_ipv4_text_injective(x.ip, y.ip);
}

} // verus!
