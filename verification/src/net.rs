//! IP addresses.
use crate::text;
use vstd::prelude::*;
use vstd::string::*;

verus! {

/// An IP address, as its octets in network order.
#[derive(Clone, Copy, Debug)]
pub enum IpAddress {
    /// An IPv4 address.
    V4([u8; 4]),
    /// An IPv6 address.
    V6([u8; 16]),
}

/// Dotted-decimal notation.
pub open spec fn ipv4_text(o: Seq<u8>) -> Seq<char> {
    text::decimal_text(o[0] as nat).push('.') + text::decimal_text(o[1] as nat).push('.') + text::decimal_text(
        o[2] as nat,
    ).push('.') + text::decimal_text(o[3] as nat)
}

/// The eight 16-bit groups of an IPv6 address.
pub open spec fn ipv6_groups(o: Seq<u8>) -> Seq<u16> {
    Seq::new(8, |i: int| (o[2 * i] * 256 + o[2 * i + 1]) as u16)
}

/// The number of zero groups in a row from group `i` on.
pub open spec fn zero_run(groups: Seq<u16>, i: int) -> nat
    decreases groups.len() - i,
{
    if 0 <= i < groups.len() && groups[i] == 0 {
        1 + zero_run(groups, i + 1)
    } else {
        0
    }
}

/// Among the first `n` groups, the leftmost at which a longest run of zero
/// groups starts.
pub open spec fn longest_run(groups: Seq<u16>, n: int) -> int
    decreases n,
{
    if n <= 1 {
        0
    } else {
        let best = longest_run(groups, n - 1);
        if zero_run(groups, n - 1) > zero_run(groups, best) {
            n - 1
        } else {
            best
        }
    }
}

/// Groups in hexadecimal with colons between them.
pub open spec fn groups_text(groups: Seq<u16>) -> Seq<char> {
    text::join_texts(groups.map_values(|g: u16| text::lower_hex_text(g as nat)), seq![':'])
}

/// Whether the address is an IPv4 address mapped into IPv6 (`::ffff:a.b.c.d`).
pub open spec fn is_ipv4_mapped(o: Seq<u8>) -> bool {
    &&& forall|i: int| 0 <= i < 10 ==> o[i] == 0
    &&& o[10] == 255
    &&& o[11] == 255
}

/// The canonical text of an IPv6 address: the leftmost longest run of at least
/// two zero groups is written `::`; a mapped IPv4 address keeps dotted decimal.
pub open spec fn ipv6_text(o: Seq<u8>) -> Seq<char> {
    let groups = ipv6_groups(o);
    let start = longest_run(groups, 8);
    let run = zero_run(groups, start);
    if is_ipv4_mapped(o) {
        "::ffff:"@ + ipv4_text(o.subrange(12, 16))
    } else if run > 1 {
        groups_text(groups.take(start)) + "::"@ + groups_text(groups.skip(start + run))
    } else {
        groups_text(groups)
    }
}

impl IpAddress {
    /// The address in its usual notation.
    pub open spec fn text(self) -> Seq<char> {
        match self {
            IpAddress::V4(o) => ipv4_text(o@),
            IpAddress::V6(o) => ipv6_text(o@),
        }
    }

    /// The octets in network order.
    pub open spec fn octets(self) -> Seq<u8> {
        match self {
            IpAddress::V4(o) => o@,
            IpAddress::V6(o) => o@,
        }
    }

    /// Whether this is an IPv6 address.
    pub fn is_ipv6(&self) -> (r: bool)
        ensures
            r == (self is V6),
    {
        match self {
            IpAddress::V4(_) => false,
            IpAddress::V6(_) => true,
        }
    }

    /// The address in its usual notation.
    pub fn to_text(&self) -> (s: String)
        ensures
            s@ == self.text(),
    {
        match self {
            IpAddress::V4(o) => {
                assert(o@ == seq![o@[0], o@[1], o@[2], o@[3]]);
                dotted(o[0], o[1], o[2], o[3])
            },
            IpAddress::V6(o) => ipv6_string(o),
        }
    }
}

fn dotted(a: u8, b: u8, c: u8, d: u8) -> (s: String)
    ensures
        s@ == ipv4_text(seq![a, b, c, d]),
{
    let mut s = text::decimal(a as u128);
    s.push('.');
    let mut second = text::decimal(b as u128);
    second.push('.');
    s.append(second.as_str());
    let mut third = text::decimal(c as u128);
    third.push('.');
    s.append(third.as_str());
    s.append(text::decimal(d as u128).as_str());
    s
}


/// The groups of `v` from `from` to `to` in hexadecimal, with colons between
/// them.
fn groups_string(v: &Vec<u16>, from: usize, to: usize) -> (s: String)
    requires
        from <= to <= v@.len(),
    ensures
        s@ == groups_text(v@.subrange(from as int, to as int)),
{
    let ghost groups = v@.subrange(from as int, to as int);
    let ghost hex = |g: u16| text::lower_hex_text(g as nat);
    let mut list: Vec<String> = Vec::new();
    let mut i: usize = from;
    while i < to
        invariant
            from <= i <= to <= v@.len(),
            groups == v@.subrange(from as int, to as int),
            hex == (|g: u16| text::lower_hex_text(g as nat)),
            text::texts(list@) == groups.take(i - from).map_values(hex),
        decreases to - i,
    {
        let t = text::lower_hex(v[i]);
        proof {
            assert(groups[i - from] == v@[i as int]);
            assert(groups.take(i + 1 - from) == groups.take(i - from).push(groups[i - from]));
            assert(text::texts(list@.push(t)) == text::texts(list@).push(t@));
        }
        list.push(t);
        i = i + 1;
    }
    assert(groups.take(groups.len() as int) == groups);
    let mut colon = String::new();
    colon.push(':');
    assert(colon@ == seq![':']);
    text::join(&list, colon.as_str())
}

/// The number of zero groups in a row from group `i` on.
fn run_length(v: &Vec<u16>, i: usize) -> (n: usize)
    requires
        i <= v@.len(),
    ensures
        n == zero_run(v@, i as int),
        i + n <= v@.len(),
    decreases v@.len() - i,
{
    if i < v.len() && v[i] == 0 {
        1 + run_length(v, i + 1)
    } else {
        0
    }
}

fn ipv6_string(o: &[u8; 16]) -> (s: String)
    ensures
        s@ == ipv6_text(o@),
{
    let mut mapped: bool = true;
    let mut i: usize = 0;
    while i < 10
        invariant
            i <= 10,
            mapped == (forall|j: int| 0 <= j < i ==> o@[j] == 0),
        decreases 10 - i,
    {
        if o[i] != 0 {
            mapped = false;
        }
        i = i + 1;
    }
    if mapped && o[10] == 255 && o[11] == 255 {
        let mut s = "::ffff:".to_owned();
        s.append(dotted(o[12], o[13], o[14], o[15]).as_str());
        assert(o@.subrange(12, 16) == seq![o@[12], o@[13], o@[14], o@[15]]);
        return s;
    }
    let mut v: Vec<u16> = Vec::new();
    let mut k: usize = 0;
    while k < 8
        invariant
            k <= 8,
            v@ == ipv6_groups(o@).take(k as int),
        decreases 8 - k,
    {
        let g: u16 = o[2 * k] as u16 * 256 + o[2 * k + 1] as u16;
        assert(ipv6_groups(o@).take(k + 1) == ipv6_groups(o@).take(k as int).push(g));
        v.push(g);
        k = k + 1;
    }
    assert(v@ == ipv6_groups(o@));
    let mut start: usize = 0;
    let mut n: usize = 1;
    while n < 8
        invariant
            1 <= n <= 8,
            v@.len() == 8,
            start < 8,
            start == longest_run(v@, n as int),
        decreases 8 - n,
    {
        if run_length(&v, n) > run_length(&v, start) {
            start = n;
        }
        n = n + 1;
    }
    let run: usize = run_length(&v, start);
    if run > 1 {
        let mut s = groups_string(&v, 0, start);
        s.append("::");
        s.append(groups_string(&v, start + run, 8).as_str());
        assert(v@.subrange(0, start as int) == v@.take(start as int));
        assert(v@.subrange(start + run, 8) == v@.skip(start + run));
        s
    } else {
        assert(v@.subrange(0, 8) == v@);
        groups_string(&v, 0, 8)
    }
}

} // verus!
