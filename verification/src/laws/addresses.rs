//! IP addresses, as their texts are read.
use crate::laws::texts;
use crate::net;
use crate::text;
use vstd::prelude::*;

verus! {

/// The text of an IPv4 address is its four octets as numbers, with dots between
/// them.
pub proof fn dotted_reads_back(o: Seq<u8>) -> (parts: Seq<Seq<char>>)
    requires
        o.len() == 4,
    ensures
        parts.len() == 4,
        forall|i: int| 0 <= i < 4 ==> texts::writes(#[trigger] parts[i], o[i] as int),
        net::ipv4_text(o) == parts[0] + seq!['.'] + parts[1] + seq!['.'] + parts[2] + seq!['.']
            + parts[3],
{
    let a = text::decimal_text(o[0] as nat);
    let b = text::decimal_text(o[1] as nat);
    let c = text::decimal_text(o[2] as nat);
    let d = text::decimal_text(o[3] as nat);
    texts::decimals_read_back(o[0] as nat);
    texts::decimals_read_back(o[1] as nat);
    texts::decimals_read_back(o[2] as nat);
    texts::decimals_read_back(o[3] as nat);
    let dot = seq!['.'];
    assert(a.push('.') + b.push('.') =~= a + dot + b + dot);
    assert(a.push('.') + b.push('.') + c.push('.') =~= a + dot + b + dot + c + dot);
    seq![a, b, c, d]
}

/// Texts with colons between them.
pub open spec fn coloned(parts: Seq<Seq<char>>) -> Seq<char>
    decreases parts.len(),
{
    if parts.len() == 0 {
        seq![]
    } else if parts.len() == 1 {
        parts[0]
    } else {
        parts[0] + seq![':'] + coloned(parts.drop_first())
    }
}

proof fn colons_join(parts: Seq<Seq<char>>)
    ensures
        text::join_texts(parts, seq![':']) == coloned(parts),
    decreases parts.len(),
{
    texts::joining_begins(parts, seq![':']);
    if parts.len() > 1 {
        texts::joining_goes_on(parts, seq![':']);
        colons_join(parts.drop_first());
    } else if parts.len() == 0 {
        assert(text::join_texts(parts, seq![':']) =~= seq![]);
    }
}

/// Whether texts are numbers in hexadecimal.
pub open spec fn hex_parts(parts: Seq<Seq<char>>, groups: Seq<u16>) -> bool {
    parts.len() == groups.len() && forall|i: int|
        0 <= i < groups.len() ==> texts::writes_hex(#[trigger] parts[i], groups[i] as int)
}

proof fn groups_read_back(groups: Seq<u16>) -> (parts: Seq<Seq<char>>)
    ensures
        hex_parts(parts, groups),
        net::groups_text(groups) == coloned(parts),
{
    let parts = groups.map_values(|g: u16| text::lower_hex_text(g as nat));
    assert forall|i: int| 0 <= i < groups.len() implies texts::writes_hex(
        #[trigger] parts[i],
        groups[i] as int,
    ) by {
        texts::lower_hex_reads_back(groups[i] as nat);
    }
    colons_join(parts);
    parts
}

/// A run of zero groups holds zeros only, and ends at another group or at the end.
proof fn runs_are_zeros(groups: Seq<u16>, i: int)
    requires
        0 <= i <= groups.len(),
    ensures
        i + net::zero_run(groups, i) <= groups.len(),
        forall|k: int| i <= k < i + net::zero_run(groups, i) ==> #[trigger] groups[k] == 0,
        i + net::zero_run(groups, i) < groups.len() ==> groups[i + net::zero_run(groups, i)] != 0,
    decreases groups.len() - i,
{
    if i < groups.len() && groups[i] == 0 {
        runs_are_zeros(groups, i + 1);
    }
}

proof fn longest_is_longest(groups: Seq<u16>, n: int, j: int)
    requires
        0 <= j < n,
    ensures
        0 <= net::longest_run(groups, n) < n,
        net::zero_run(groups, j) <= net::zero_run(groups, net::longest_run(groups, n)),
        j < net::longest_run(groups, n) ==> net::zero_run(groups, j) < net::zero_run(
            groups,
            net::longest_run(groups, n),
        ),
    decreases n,
{
    if n > 1 {
        longest_is_longest(
            groups,
            n - 1,
            if j < n - 1 {
                j
            } else {
                0
            },
        );
    }
}

/// The groups of an IPv6 address are its octets in pairs.
pub proof fn groups_are_octet_pairs(o: Seq<u8>, i: int)
    requires
        o.len() == 16,
        0 <= i < 8,
    ensures
        net::ipv6_groups(o).len() == 8,
        net::ipv6_groups(o)[i] == 256 * o[2 * i] + o[2 * i + 1],
{
}

/// How an IPv6 address is written: the groups in front of `::` and those behind
/// it, and where the run of zeros between them begins and how long it is. Without
/// such a run, all groups are in front and the run is empty.
pub struct Written {
    /// The groups in front.
    pub front: Seq<Seq<char>>,
    /// The groups behind.
    pub back: Seq<Seq<char>>,
    /// Where the run begins.
    pub start: int,
    /// How long the run is.
    pub run: int,
}

/// The text of an IPv6 address that is no mapped IPv4 address: its groups in
/// hexadecimal with colons between them, but for a run of two or more zero groups,
/// which is written `::`. The run is the longest, and of several the first; there
/// is none only if no two zero groups stand side by side.
pub proof fn colons_read_back(o: Seq<u8>) -> (w: Written)
    requires
        o.len() == 16,
        !net::is_ipv4_mapped(o),
    ensures
        ({
            let groups = net::ipv6_groups(o);
            if w.run == 0 {
                &&& hex_parts(w.front, groups)
                &&& net::ipv6_text(o) == coloned(w.front)
                &&& forall|i: int| 0 <= i < 7 ==> groups[i] != 0 || #[trigger] groups[i + 1] != 0
            } else {
                &&& w.run >= 2
                &&& 0 <= w.start
                &&& w.start + w.run <= 8
                &&& forall|i: int| w.start <= i < w.start + w.run ==> #[trigger] groups[i] == 0
                &&& hex_parts(w.front, groups.take(w.start))
                &&& hex_parts(w.back, groups.skip(w.start + w.run))
                &&& net::ipv6_text(o) == coloned(w.front) + "::"@ + coloned(w.back)
                &&& forall|i: int|
                    0 <= i < 8 ==> #[trigger] net::zero_run(groups, i) <= w.run && (i < w.start
                        ==> net::zero_run(groups, i) < w.run)
            }
        }),
{
    let groups = net::ipv6_groups(o);
    let start = net::longest_run(groups, 8);
    let run = net::zero_run(groups, start) as int;
    longest_is_longest(groups, 8, 0);
    runs_are_zeros(groups, start);
    assert forall|i: int| 0 <= i < 8 implies #[trigger] net::zero_run(groups, i) <= run && (i
        < start ==> net::zero_run(groups, i) < run) by {
        longest_is_longest(groups, 8, i);
    }
    if run > 1 {
        let front = groups_read_back(groups.take(start));
        let back = groups_read_back(groups.skip(start + run));
        Written { front, back, start, run }
    } else {
        let front = groups_read_back(groups);
        assert forall|i: int| 0 <= i < 7 implies groups[i] != 0 || #[trigger] groups[i + 1]
            != 0 by {
            if groups[i] == 0 && groups[i + 1] == 0 {
                reveal_with_fuel(net::zero_run, 3);
                assert(net::zero_run(groups, i) >= 2);
            }
        }
        Written { front, back: seq![], start: 0, run: 0 }
    }
}

/// A mapped IPv4 address is written as such: `::ffff:` and the address, which are
/// the last four octets; the others are ten zeros and twice 255.
pub proof fn mapped_addresses_read_back(o: Seq<u8>)
    requires
        o.len() == 16,
    ensures
        net::is_ipv4_mapped(o) <==> o[10] == 255 && o[11] == 255 && (forall|i: int|
            0 <= i < 10 ==> #[trigger] o[i] == 0),
        net::is_ipv4_mapped(o) ==> net::ipv6_text(o) == "::ffff:"@ + net::ipv4_text(o.skip(12)),
{
    assert(o.subrange(12, 16) =~= o.skip(12));
}

} // verus!
