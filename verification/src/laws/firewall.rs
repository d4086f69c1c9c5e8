//! Scripts, as `nft` reads them: line by line, each line as words.
use crate::killswitch::KillSwitch;
use crate::laws::texts;
use crate::nft::{self, AddressSet, Condition, Hook, Packet, Rule, Verdict};
use crate::redirect::TransparentRedirect;
use crate::text;
use vstd::prelude::*;

verus! {

// ---------------------------------------------------------------------------
// Reading.
// ---------------------------------------------------------------------------
/// The lines of a script, each as its words.
pub open spec fn statements(script: Seq<char>) -> Seq<Seq<Seq<char>>> {
    text::lines_of(script).map_values(|line: Seq<char>| text::words_of(line))
}

/// The user that a rule names.
pub open spec fn owner_of(words: Seq<Seq<char>>) -> Option<u32> {
    if words.len() >= 3 && words[0] == "meta"@ && words[1] == "skuid"@ {
        Some(texts::decimal_value(words[2]) as u32)
    } else {
        None
    }
}

/// What follows the user in a rule.
pub open spec fn after_owner(words: Seq<Seq<char>>) -> Seq<Seq<char>> {
    if owner_of(words) is Some {
        words.skip(3)
    } else {
        words
    }
}

/// The words that name an address set.
pub open spec fn set_words(set: AddressSet) -> Seq<Seq<char>> {
    match set {
        AddressSet::Localhost4 => seq!["ip"@, "daddr"@, "127.0.0.1"@],
        AddressSet::Localhost6 => seq!["ip6"@, "daddr"@, "::1"@],
        AddressSet::Local4 => seq![
            "ip"@,
            "daddr"@,
            "{"@,
            "127.0.0.0/8,"@,
            "10.0.0.0/8,"@,
            "172.16.0.0/12,"@,
            "192.168.0.0/16"@,
            "}"@,
        ],
        AddressSet::Local6 => seq![
            "ip6"@,
            "daddr"@,
            "{"@,
            "::1,"@,
            "fc00::/7,"@,
            "fe80::/10"@,
            "}"@,
        ],
    }
}

/// Whether words begin with others.
pub open spec fn begins(words: Seq<Seq<char>>, with: Seq<Seq<char>>) -> bool {
    words.len() >= with.len() && words.take(with.len() as int) == with
}

/// The condition that stands in front, and how many words it takes.
pub open spec fn condition_of(words: Seq<Seq<char>>) -> (Condition, int) {
    if words[0] == "oif"@ {
        (Condition::OutLoopback, 2)
    } else if words[0] == "meta"@ {
        (Condition::Tcp, 3)
    } else if words[0] == "tcp"@ {
        (Condition::TcpPort(texts::decimal_value(words[2]) as u16), 3)
    } else if words[0] == "udp"@ {
        (Condition::UdpPort(texts::decimal_value(words[2]) as u16), 3)
    } else if begins(words, set_words(AddressSet::Localhost4)) {
        (Condition::To(AddressSet::Localhost4), 3)
    } else if begins(words, set_words(AddressSet::Localhost6)) {
        (Condition::To(AddressSet::Localhost6), 3)
    } else if begins(words, set_words(AddressSet::Local4)) {
        (Condition::To(AddressSet::Local4), 8)
    } else if begins(words, set_words(AddressSet::Local6)) {
        (Condition::To(AddressSet::Local6), 7)
    } else {
        (Condition::Always, 0)
    }
}

/// The verdict that the words state.
pub open spec fn verdict_of(words: Seq<Seq<char>>) -> Option<Verdict> {
    if words == seq!["accept"@] {
        Some(Verdict::Accept)
    } else if words == seq!["counter"@, "drop"@] {
        Some(Verdict::Drop)
    } else if words == seq!["return"@] {
        Some(Verdict::Return)
    } else if words.len() == 3 && words[0] == "redirect"@ && words[1] == "to"@ && words[2].len() > 0
        && words[2][0] == ':' {
        Some(Verdict::Redirect(texts::decimal_value(words[2].skip(1)) as u16))
    } else {
        None
    }
}

/// The rule that a line states.
pub open spec fn rule_of(words: Seq<Seq<char>>) -> Option<Rule> {
    let rest = after_owner(words);
    let (condition, n) = condition_of(rest);
    match verdict_of(rest.skip(n)) {
        Some(verdict) => Some(Rule { owner: owner_of(words), condition, verdict }),
        None => None,
    }
}

/// The rules from statement `i` on, up to the closing brace.
pub open spec fn rules_from(lines: Seq<Seq<Seq<char>>>, i: int) -> Seq<Option<Rule>>
    decreases lines.len() - i,
{
    if !(0 <= i < lines.len()) || lines[i] == seq!["}"@] {
        seq![]
    } else {
        seq![rule_of(lines[i])] + rules_from(lines, i + 1)
    }
}

/// Rules that were all understood.
pub open spec fn understood(rules: Seq<Rule>) -> Seq<Option<Rule>> {
    rules.map_values(|r: Rule| Some(r))
}

// ---------------------------------------------------------------------------
// Writing.
// ---------------------------------------------------------------------------
proof fn networks4_are_written()
    ensures
        nft::network4(127, 0, 0, 1, 32).text() == "127.0.0.1"@,
        nft::network4(127, 0, 0, 0, 8).text() == "127.0.0.0/8"@,
        nft::network4(10, 0, 0, 0, 8).text() == "10.0.0.0/8"@,
        nft::network4(172, 16, 0, 0, 12).text() == "172.16.0.0/12"@,
        nft::network4(192, 168, 0, 0, 16).text() == "192.168.0.0/16"@,
{
    reveal_with_fuel(text::decimal_text, 4);
    reveal_strlit("/");
    reveal_strlit("127.0.0.1");
    reveal_strlit("127.0.0.0/8");
    reveal_strlit("10.0.0.0/8");
    reveal_strlit("172.16.0.0/12");
    reveal_strlit("192.168.0.0/16");
    assert(text::decimal_text(0) =~= seq!['0']);
    assert(text::decimal_text(1) =~= seq!['1']);
    assert(text::decimal_text(8) =~= seq!['8']);
    assert(text::decimal_text(10) =~= seq!['1', '0']);
    assert(text::decimal_text(12) =~= seq!['1', '2']);
    assert(text::decimal_text(16) =~= seq!['1', '6']);
    assert(text::decimal_text(127) =~= seq!['1', '2', '7']);
    assert(text::decimal_text(168) =~= seq!['1', '6', '8']);
    assert(text::decimal_text(172) =~= seq!['1', '7', '2']);
    assert(text::decimal_text(192) =~= seq!['1', '9', '2']);
    assert(nft::network4(127, 0, 0, 1, 32).text() =~= "127.0.0.1"@);
    assert(nft::network4(127, 0, 0, 0, 8).text() =~= "127.0.0.0/8"@);
    assert(nft::network4(10, 0, 0, 0, 8).text() =~= "10.0.0.0/8"@);
    assert(nft::network4(172, 16, 0, 0, 12).text() =~= "172.16.0.0/12"@);
    assert(nft::network4(192, 168, 0, 0, 16).text() =~= "192.168.0.0/16"@);
}

proof fn groups_of(a: u8, b: u8, z: u8)
    ensures
        ({
            let o = nft::network6(a, b, z, 128).address.octets();
            let g = crate::net::ipv6_groups(o);
            &&& g.len() == 8
            &&& g[0] == a * 256 + b
            &&& g[7] == z
            &&& forall|i: int| 1 <= i < 7 ==> #[trigger] g[i] == 0
            &&& !crate::net::is_ipv4_mapped(o)
        }),
{
    let o = nft::network6(a, b, z, 128).address.octets();
    let g = crate::net::ipv6_groups(o);
    assert(o[0] == a && o[1] == b && o[14] == 0 && o[15] == z && o[10] == 0);
    assert(g[0] == (o[0] * 256 + o[1]) as u16);
    assert(g[7] == (o[14] * 256 + o[15]) as u16);
    assert forall|i: int| 1 <= i < 7 implies #[trigger] g[i] == 0 by {
        assert(o[2 * i] == 0 && o[2 * i + 1] == 0);
    }
}

proof fn networks6_are_written()
    ensures
        nft::network6(0, 0, 1, 128).text() == "::1"@,
        nft::network6(252, 0, 0, 7).text() == "fc00::/7"@,
        nft::network6(254, 128, 0, 10).text() == "fe80::/10"@,
{
    reveal_with_fuel(text::decimal_text, 4);
    reveal_with_fuel(text::lower_hex_text, 5);
    reveal_with_fuel(text::join_texts, 3);
    reveal_with_fuel(crate::net::zero_run, 9);
    reveal_with_fuel(crate::net::longest_run, 9);
    reveal_strlit("/");
    reveal_strlit("::");
    reveal_strlit("::1");
    reveal_strlit("fc00::/7");
    reveal_strlit("fe80::/10");
    groups_of(0, 0, 1);
    groups_of(252, 0, 0);
    groups_of(254, 128, 0);
    assert(text::decimal_text(7) =~= seq!['7']);
    assert(text::decimal_text(10) =~= seq!['1', '0']);
    assert(text::lower_hex_text(1) =~= seq!['1']);
    assert(text::lower_hex_text(64512) =~= seq!['f', 'c', '0', '0']);
    assert(text::lower_hex_text(65152) =~= seq!['f', 'e', '8', '0']);
    let one = crate::net::ipv6_groups(nft::network6(0, 0, 1, 128).address.octets());
    assert(crate::net::longest_run(one, 8) == 0);
    assert(crate::net::zero_run(one, 0) == 7);
    assert(one.take(0) =~= seq![]);
    assert(one.skip(7) =~= seq![1u16]);
    assert(crate::net::groups_text(one.take(0)) =~= seq![]);
    assert(crate::net::groups_text(one.skip(7)) =~= seq!['1']);
    let fc = crate::net::ipv6_groups(nft::network6(252, 0, 0, 7).address.octets());
    assert(crate::net::longest_run(fc, 8) == 1);
    assert(crate::net::zero_run(fc, 1) == 7);
    assert(fc.take(1) =~= seq![64512u16]);
    assert(fc.skip(8) =~= seq![]);
    assert(crate::net::groups_text(fc.take(1)) =~= seq!['f', 'c', '0', '0']);
    assert(crate::net::groups_text(fc.skip(8)) =~= seq![]);
    let fe = crate::net::ipv6_groups(nft::network6(254, 128, 0, 10).address.octets());
    assert(crate::net::longest_run(fe, 8) == 1);
    assert(crate::net::zero_run(fe, 1) == 7);
    assert(fe.take(1) =~= seq![65152u16]);
    assert(fe.skip(8) =~= seq![]);
    assert(crate::net::groups_text(fe.take(1)) =~= seq!['f', 'e', '8', '0']);
    assert(crate::net::groups_text(fe.skip(8)) =~= seq![]);
    assert(nft::network6(0, 0, 1, 128).text() =~= "::1"@);
    assert(nft::network6(252, 0, 0, 7).text() =~= "fc00::/7"@);
    assert(nft::network6(254, 128, 0, 10).text() =~= "fe80::/10"@);
}

proof fn spaced_joins(a: Seq<Seq<char>>, b: Seq<Seq<char>>)
    ensures
        texts::spaced(a + b) == texts::spaced(a) + texts::spaced(b),
    decreases b.len(),
{
    if b.len() == 0 {
        assert(a + b == a);
    } else {
        spaced_joins(a, b.drop_last());
        assert((a + b).drop_last() == a + b.drop_last());
        assert((a + b).last() == b.last());
    }
}

proof fn set_heads()
    ensures
        "ip daddr "@ == texts::spaced(seq!["ip"@, "daddr"@]),
        "ip6 daddr "@ == texts::spaced(seq!["ip6"@, "daddr"@]),
        "ip daddr { "@ == texts::spaced(seq!["ip"@, "daddr"@, "{"@]),
        "ip6 daddr { "@ == texts::spaced(seq!["ip6"@, "daddr"@, "{"@]),
{
    reveal_with_fuel(texts::spaced, 4);
    reveal_strlit("{");
    reveal_strlit("ip");
    reveal_strlit("ip6");
    reveal_strlit("daddr");
    reveal_strlit("ip daddr ");
    reveal_strlit("ip6 daddr ");
    reveal_strlit("ip daddr { ");
    reveal_strlit("ip6 daddr { ");
    assert(seq!["ip"@, "daddr"@].drop_last() =~= seq!["ip"@]);
    assert(seq!["ip6"@, "daddr"@].drop_last() =~= seq!["ip6"@]);
    assert(seq!["ip"@, "daddr"@, "{"@].drop_last() =~= seq!["ip"@, "daddr"@]);
    assert(seq!["ip6"@, "daddr"@, "{"@].drop_last() =~= seq!["ip6"@, "daddr"@]);
    assert(texts::spaced(seq!["ip"@]) =~= "ip"@ + seq![' ']);
    assert(texts::spaced(seq!["ip6"@]) =~= "ip6"@ + seq![' ']);
    assert("ip daddr "@ =~= texts::spaced(seq!["ip"@, "daddr"@]));
    assert("ip6 daddr "@ =~= texts::spaced(seq!["ip6"@, "daddr"@]));
    assert("ip daddr { "@ =~= texts::spaced(seq!["ip"@, "daddr"@, "{"@]));
    assert("ip6 daddr { "@ =~= texts::spaced(seq!["ip6"@, "daddr"@, "{"@]));
}

proof fn commas()
    ensures
        "127.0.0.0/8,"@ == "127.0.0.0/8"@ + seq![','],
        "10.0.0.0/8,"@ == "10.0.0.0/8"@ + seq![','],
        "172.16.0.0/12,"@ == "172.16.0.0/12"@ + seq![','],
        "::1,"@ == "::1"@ + seq![','],
        "fc00::/7,"@ == "fc00::/7"@ + seq![','],
        ", "@ == seq![',', ' '],
        " "@ == seq![' '],
        "}"@ == seq!['}'],
        " }"@ == seq![' ', '}'],
{
    reveal_strlit("127.0.0.0/8");
    reveal_strlit("127.0.0.0/8,");
    reveal_strlit("10.0.0.0/8");
    reveal_strlit("10.0.0.0/8,");
    reveal_strlit("172.16.0.0/12");
    reveal_strlit("172.16.0.0/12,");
    reveal_strlit("::1");
    reveal_strlit("::1,");
    reveal_strlit("fc00::/7");
    reveal_strlit("fc00::/7,");
    reveal_strlit(", ");
    reveal_strlit(" ");
    reveal_strlit("}");
    reveal_strlit(" }");
    assert("127.0.0.0/8,"@ =~= "127.0.0.0/8"@ + seq![',']);
    assert("10.0.0.0/8,"@ =~= "10.0.0.0/8"@ + seq![',']);
    assert("172.16.0.0/12,"@ =~= "172.16.0.0/12"@ + seq![',']);
    assert("::1,"@ =~= "::1"@ + seq![',']);
    assert("fc00::/7,"@ =~= "fc00::/7"@ + seq![',']);
    assert(", "@ =~= seq![',', ' ']);
    assert(" "@ =~= seq![' ']);
    assert("}"@ =~= seq!['}']);
    assert(" }"@ =~= seq![' ', '}']);
}

proof fn set_words_are_words(set: AddressSet)
    ensures
        texts::all_words(set_words(set)),
{
    reveal_strlit("{");
    reveal_strlit("}");
    reveal_strlit("ip");
    reveal_strlit("ip6");
    reveal_strlit("daddr");
    reveal_strlit("127.0.0.1");
    reveal_strlit("::1");
    reveal_strlit("127.0.0.0/8,");
    reveal_strlit("10.0.0.0/8,");
    reveal_strlit("172.16.0.0/12,");
    reveal_strlit("192.168.0.0/16");
    reveal_strlit("::1,");
    reveal_strlit("fc00::/7,");
    reveal_strlit("fe80::/10");
    assert(texts::is_word("{"@));
    assert(texts::is_word("}"@));
    assert(texts::is_word("ip"@));
    assert(texts::is_word("ip6"@));
    assert(texts::is_word("daddr"@));
    assert(texts::is_word("127.0.0.1"@));
    assert(texts::is_word("::1"@));
    assert(texts::is_word("127.0.0.0/8,"@));
    assert(texts::is_word("10.0.0.0/8,"@));
    assert(texts::is_word("172.16.0.0/12,"@));
    assert(texts::is_word("192.168.0.0/16"@));
    assert(texts::is_word("::1,"@));
    assert(texts::is_word("fc00::/7,"@));
    assert(texts::is_word("fe80::/10"@));
}

proof fn one_more(words: Seq<Seq<char>>, w: Seq<char>)
    ensures
        texts::spaced(words.push(w)) == texts::spaced(words) + w + seq![' '],
{
    assert(words.push(w).drop_last() == words);
}

proof fn join_four(a: Seq<char>, b: Seq<char>, c: Seq<char>, d: Seq<char>, sep: Seq<char>)
    ensures
        text::join_texts(seq![a, b, c], sep) == a + sep + b + sep + c,
        text::join_texts(seq![a, b, c, d], sep) == a + sep + b + sep + c + sep + d,
{
    reveal_with_fuel(text::join_texts, 5);
    assert(seq![a, b, c, d].drop_last() =~= seq![a, b, c]);
    assert(seq![a, b, c].drop_last() =~= seq![a, b]);
    assert(seq![a, b].drop_last() =~= seq![a]);
}

proof fn list_three(head: Seq<Seq<char>>, a: Seq<char>, b: Seq<char>, c: Seq<char>)
    ensures
        ({
            let cs = seq![',', ' '];
            texts::spaced(head.push(a + seq![',']).push(b + seq![',']).push(c).push(seq!['}']))
                == texts::spaced(head) + (a + cs + b + cs + c) + seq![' ', '}'] + seq![' ']
        }),
{
    let cs = seq![',', ' '];
    let p0 = texts::spaced(head);
    let h1 = head.push(a + seq![',']);
    let h2 = h1.push(b + seq![',']);
    let h3 = h2.push(c);
    one_more(head, a + seq![',']);
    one_more(h1, b + seq![',']);
    one_more(h2, c);
    one_more(h3, seq!['}']);
    assert(texts::spaced(h1) =~= p0 + (a + cs));
    assert(texts::spaced(h2) =~= p0 + (a + cs + b + cs));
    assert(texts::spaced(h3) =~= p0 + (a + cs + b + cs + c) + seq![' ']);
}

proof fn list_four(
    head: Seq<Seq<char>>,
    a: Seq<char>,
    b: Seq<char>,
    c: Seq<char>,
    d: Seq<char>,
)
    ensures
        ({
            let cs = seq![',', ' '];
            texts::spaced(
                head.push(a + seq![',']).push(b + seq![',']).push(c + seq![',']).push(d).push(
                    seq!['}'],
                ),
            ) == texts::spaced(head) + (a + cs + b + cs + c + cs + d) + seq![' ', '}'] + seq![' ']
        }),
{
    let cs = seq![',', ' '];
    let p0 = texts::spaced(head);
    let h1 = head.push(a + seq![',']);
    let h2 = h1.push(b + seq![',']);
    let h3 = h2.push(c + seq![',']);
    let h4 = h3.push(d);
    one_more(head, a + seq![',']);
    one_more(h1, b + seq![',']);
    one_more(h2, c + seq![',']);
    one_more(h3, d);
    one_more(h4, seq!['}']);
    assert(texts::spaced(h1) =~= p0 + (a + cs));
    assert(texts::spaced(h2) =~= p0 + (a + cs + b + cs));
    assert(texts::spaced(h3) =~= p0 + (a + cs + b + cs + c + cs));
    assert(texts::spaced(h4) =~= p0 + (a + cs + b + cs + c + cs + d) + seq![' ']);
}

/// Address sets are written as the words that name them.
proof fn sets_are_written(set: AddressSet)
    ensures
        set.text() + " "@ == texts::spaced(set_words(set)),
        texts::all_words(set_words(set)),
{
    networks4_are_written();
    networks6_are_written();
    set_words_are_words(set);
    set_heads();
    commas();
    let nets = nft::network_texts(set.networks());
    let words = set_words(set);
    match set {
        AddressSet::Localhost4 => {
            assert(nets[0] == "127.0.0.1"@);
            let head = seq!["ip"@, "daddr"@];
            one_more(head, "127.0.0.1"@);
            assert(words =~= head.push("127.0.0.1"@));
        },
        AddressSet::Localhost6 => {
            assert(nets[0] == "::1"@);
            let head = seq!["ip6"@, "daddr"@];
            one_more(head, "::1"@);
            assert(words =~= head.push("::1"@));
        },
        AddressSet::Local4 => {
            let a = "127.0.0.0/8"@;
            let b = "10.0.0.0/8"@;
            let c = "172.16.0.0/12"@;
            let d = "192.168.0.0/16"@;
            let head = seq!["ip"@, "daddr"@, "{"@];
            assert(nets =~= seq![a, b, c, d]);
            join_four(a, b, c, d, ", "@);
            list_four(head, a, b, c, d);
            assert(words =~= head.push(a + seq![',']).push(b + seq![',']).push(c + seq![',']).push(
                d,
            ).push(seq!['}']));
        },
        AddressSet::Local6 => {
            let a = "::1"@;
            let b = "fc00::/7"@;
            let c = "fe80::/10"@;
            let head = seq!["ip6"@, "daddr"@, "{"@];
            assert(nets =~= seq![a, b, c]);
            join_four(a, b, c, c, ", "@);
            list_three(head, a, b, c);
            assert(words =~= head.push(a + seq![',']).push(b + seq![',']).push(c).push(seq!['}']));
        },
    }
}

spec fn owner_words(rule: Rule) -> Seq<Seq<char>> {
    match rule.owner {
        Some(uid) => seq!["meta"@, "skuid"@, text::decimal_text(uid as nat)],
        None => seq![],
    }
}

spec fn condition_words(rule: Rule) -> Seq<Seq<char>> {
    match rule.condition {
        Condition::Always => seq![],
        Condition::OutLoopback => seq!["oif"@, "lo"@],
        Condition::To(set) => set_words(set),
        Condition::TcpPort(port) => seq!["tcp"@, "dport"@, text::decimal_text(port as nat)],
        Condition::UdpPort(port) => seq!["udp"@, "dport"@, text::decimal_text(port as nat)],
        Condition::Tcp => seq!["meta"@, "l4proto"@, "tcp"@],
    }
}

spec fn verdict_front(rule: Rule) -> Seq<Seq<char>> {
    match rule.verdict {
        Verdict::Accept => seq![],
        Verdict::Drop => seq!["counter"@],
        Verdict::Return => seq![],
        Verdict::Redirect(port) => seq!["redirect"@, "to"@],
    }
}

spec fn verdict_last(rule: Rule) -> Seq<char> {
    match rule.verdict {
        Verdict::Accept => "accept"@,
        Verdict::Drop => "drop"@,
        Verdict::Return => "return"@,
        Verdict::Redirect(port) => seq![':'] + text::decimal_text(port as nat),
    }
}

spec fn rule_words(rule: Rule) -> Seq<Seq<char>> {
    owner_words(rule) + condition_words(rule) + verdict_front(rule).push(verdict_last(rule))
}

spec fn rule_line(rule: Rule) -> Seq<char> {
    "\t\t"@ + rule.owner_text() + rule.condition_text() + rule.verdict_text()
}

proof fn decimals_are_words(n: nat)
    ensures
        texts::is_word(text::decimal_text(n)),
        texts::is_word(seq![':'] + text::decimal_text(n)),
{
    texts::decimals_read_back(n);
    let s = text::decimal_text(n);
    assert forall|i: int| 0 <= i < s.len() implies !texts::is_white(#[trigger] s[i]) by {
        assert('0' <= s[i] <= '9');
    }
    let t = seq![':'] + s;
    assert forall|i: int| 0 <= i < t.len() implies !texts::is_white(#[trigger] t[i]) by {
        if i > 0 {
            assert(t[i] == s[i - 1]);
        }
    }
}

proof fn two_words(a: Seq<char>, b: Seq<char>)
    ensures
        texts::spaced(seq![a]) == a + seq![' '],
        texts::spaced(seq![a, b]) == a + seq![' '] + b + seq![' '],
{
    reveal_with_fuel(texts::spaced, 3);
    assert(seq![a].drop_last() =~= seq![]);
    assert(seq![a, b].drop_last() =~= seq![a]);
    assert(texts::spaced(seq![a]) =~= a + seq![' ']);
    assert(texts::spaced(seq![a, b]) =~= a + seq![' '] + b + seq![' ']);
}

proof fn owners_are_written(rule: Rule)
    ensures
        rule.owner_text() == texts::spaced(owner_words(rule)),
        texts::all_words(owner_words(rule)),
{
    reveal_strlit("");
    reveal_strlit(" ");
    reveal_strlit("meta");
    reveal_strlit("skuid");
    reveal_strlit("meta skuid ");
    assert(texts::is_word("meta"@));
    assert(texts::is_word("skuid"@));
    match rule.owner {
        Some(uid) => {
            let d = text::decimal_text(uid as nat);
            decimals_are_words(uid as nat);
            two_words("meta"@, "skuid"@);
            assert("meta skuid "@ =~= "meta"@ + seq![' '] + "skuid"@ + seq![' ']);
            assert(" "@ =~= seq![' ']);
            one_more(seq!["meta"@, "skuid"@], d);
            assert(owner_words(rule) =~= seq!["meta"@, "skuid"@].push(d));
        },
        None => {
            assert(rule.owner_text() =~= seq![]);
        },
    }
}

proof fn port_conditions(d: Seq<char>)
    ensures
        "tcp dport "@ + d + " "@ == texts::spaced(seq!["tcp"@, "dport"@, d]),
        "udp dport "@ + d + " "@ == texts::spaced(seq!["udp"@, "dport"@, d]),
        texts::is_word("tcp"@),
        texts::is_word("udp"@),
        texts::is_word("dport"@),
{
    reveal_strlit(" ");
    reveal_strlit("tcp");
    reveal_strlit("udp");
    reveal_strlit("dport");
    reveal_strlit("tcp dport ");
    reveal_strlit("udp dport ");
    two_words("tcp"@, "dport"@);
    two_words("udp"@, "dport"@);
    assert(" "@ =~= seq![' ']);
    assert("tcp dport "@ =~= "tcp"@ + seq![' '] + "dport"@ + seq![' ']);
    assert("udp dport "@ =~= "udp"@ + seq![' '] + "dport"@ + seq![' ']);
    one_more(seq!["tcp"@, "dport"@], d);
    one_more(seq!["udp"@, "dport"@], d);
    assert(seq!["tcp"@, "dport"@].push(d) =~= seq!["tcp"@, "dport"@, d]);
    assert(seq!["udp"@, "dport"@].push(d) =~= seq!["udp"@, "dport"@, d]);
}

proof fn conditions_are_written(rule: Rule)
    ensures
        rule.condition_text() == texts::spaced(condition_words(rule)),
        texts::all_words(condition_words(rule)),
{
    match rule.condition {
        Condition::Always => {
            reveal_strlit("");
            assert(rule.condition_text() =~= seq![]);
        },
        Condition::OutLoopback => {
            reveal_strlit("oif");
            reveal_strlit("lo");
            reveal_strlit("oif lo ");
            two_words("oif"@, "lo"@);
            assert("oif lo "@ =~= "oif"@ + seq![' '] + "lo"@ + seq![' ']);
            assert(texts::is_word("oif"@));
            assert(texts::is_word("lo"@));
        },
        Condition::To(set) => {
            sets_are_written(set);
        },
        Condition::TcpPort(port) => {
            decimals_are_words(port as nat);
            port_conditions(text::decimal_text(port as nat));
        },
        Condition::UdpPort(port) => {
            decimals_are_words(port as nat);
            port_conditions(text::decimal_text(port as nat));
        },
        Condition::Tcp => {
            reveal_strlit("meta");
            reveal_strlit("l4proto");
            reveal_strlit("tcp");
            reveal_strlit("meta l4proto tcp ");
            two_words("meta"@, "l4proto"@);
            one_more(seq!["meta"@, "l4proto"@], "tcp"@);
            assert(seq!["meta"@, "l4proto"@].push("tcp"@) =~= condition_words(rule));
            assert("meta l4proto tcp "@ =~= "meta"@ + seq![' '] + "l4proto"@ + seq![' '] + "tcp"@
                + seq![' ']);
            assert(texts::is_word("meta"@));
            assert(texts::is_word("l4proto"@));
            assert(texts::is_word("tcp"@));
        },
    }
}

proof fn verdicts_are_written(rule: Rule)
    ensures
        rule.verdict_text() == texts::spaced(verdict_front(rule)) + verdict_last(rule),
        texts::all_words(verdict_front(rule)),
        texts::is_word(verdict_last(rule)),
{
    match rule.verdict {
        Verdict::Accept => {
            reveal_strlit("accept");
            assert(rule.verdict_text() =~= seq![] + "accept"@);
        },
        Verdict::Drop => {
            reveal_strlit("counter");
            reveal_strlit("drop");
            reveal_strlit("counter drop");
            two_words("counter"@, "drop"@);
            assert("counter drop"@ =~= "counter"@ + seq![' '] + "drop"@);
            assert(texts::is_word("counter"@));
        },
        Verdict::Return => {
            reveal_strlit("return");
            assert(rule.verdict_text() =~= seq![] + "return"@);
        },
        Verdict::Redirect(port) => {
            reveal_strlit("redirect");
            reveal_strlit("to");
            reveal_strlit("redirect to :");
            decimals_are_words(port as nat);
            two_words("redirect"@, "to"@);
            assert("redirect to :"@ =~= "redirect"@ + seq![' '] + "to"@ + seq![' '] + seq![':']);
            assert(texts::is_word("redirect"@));
            assert(texts::is_word("to"@));
        },
    }
}

proof fn spaced_is_line(words: Seq<Seq<char>>)
    requires
        texts::all_words(words),
    ensures
        forall|i: int| 0 <= i < texts::spaced(words).len() ==> #[trigger] texts::spaced(words)[i]
            != '\n',
    decreases words.len(),
{
    if words.len() > 0 {
        let front = words.drop_last();
        assert forall|i: int| 0 <= i < front.len() implies texts::is_word(#[trigger] front[i]) by {
            assert(front[i] == words[i]);
        }
        spaced_is_line(front);
        let w = words.last();
        assert(texts::is_word(words[words.len() - 1]));
        let s = texts::spaced(words);
        let n = texts::spaced(front).len() as int;
        assert forall|i: int| 0 <= i < s.len() implies #[trigger] s[i] != '\n' by {
            if i < n {
                assert(s[i] == texts::spaced(front)[i]);
            } else if i < n + w.len() {
                assert(s[i] == w[i - n]);
                assert(!texts::is_white(w[i - n]));
            }
        }
    }
}

/// A rule is written as one line, of its words.
proof fn rules_are_written(rule: Rule)
    ensures
        rule.text() == rule_line(rule) + seq!['\n'],
        text::words_of(rule_line(rule)) == rule_words(rule),
        texts::is_line(rule_line(rule)),
{
    owners_are_written(rule);
    conditions_are_written(rule);
    verdicts_are_written(rule);
    reveal_strlit("\n");
    reveal_strlit("\t\t");
    assert("\n"@ =~= seq!['\n']);
    let front = owner_words(rule) + condition_words(rule) + verdict_front(rule);
    let w = verdict_last(rule);
    spaced_joins(owner_words(rule) + condition_words(rule), verdict_front(rule));
    spaced_joins(owner_words(rule), condition_words(rule));
    assert forall|i: int| 0 <= i < front.len() implies texts::is_word(#[trigger] front[i]) by {
        let a = owner_words(rule);
        let b = condition_words(rule);
        if i < a.len() {
            assert(front[i] == a[i]);
        } else if i < a.len() + b.len() {
            assert(front[i] == b[i - a.len()]);
        } else {
            assert(front[i] == verdict_front(rule)[i - a.len() - b.len()]);
        }
    }
    let body = texts::spaced(front) + w;
    assert(rule_line(rule) =~= seq!['\t'] + (seq!['\t'] + body));
    texts::leading_white('\t', seq!['\t'] + body);
    texts::leading_white('\t', body);
    texts::spaced_words(front, w);
    texts::last_word(w);
    assert(front + seq![w] =~= rule_words(rule));
    spaced_is_line(front);
    let line = rule_line(rule);
    assert forall|i: int| 0 <= i < line.len() implies #[trigger] line[i] != '\n' by {
        if 2 <= i < 2 + texts::spaced(front).len() {
            assert(line[i] == texts::spaced(front)[i - 2]);
        } else if i >= 2 {
            assert(line[i] == w[i - 2 - texts::spaced(front).len()]);
            assert(!texts::is_white(w[i - 2 - texts::spaced(front).len()]));
        }
    }
    assert(line.last() == w.last());
    assert(!texts::is_white(w[w.len() - 1]));
}

spec fn no_set_word(w: Seq<char>) -> bool {
    w != "ip"@ && w != "ip6"@
}

proof fn keywords_differ()
    ensures
        "skuid"@ != "l4proto"@,
        "oif"@ != "meta"@,
        "tcp"@ != "meta"@,
        "udp"@ != "meta"@,
        "ip"@ != "meta"@,
        "ip6"@ != "meta"@,
        "accept"@ != "meta"@,
        "counter"@ != "meta"@,
        "return"@ != "meta"@,
        "redirect"@ != "meta"@,
        "tcp"@ != "oif"@,
        "udp"@ != "oif"@,
        "ip"@ != "oif"@,
        "ip6"@ != "oif"@,
        "accept"@ != "oif"@,
        "counter"@ != "oif"@,
        "return"@ != "oif"@,
        "redirect"@ != "oif"@,
        "udp"@ != "tcp"@,
        "ip"@ != "tcp"@,
        "ip6"@ != "tcp"@,
        "accept"@ != "tcp"@,
        "counter"@ != "tcp"@,
        "return"@ != "tcp"@,
        "redirect"@ != "tcp"@,
        "ip"@ != "udp"@,
        "ip6"@ != "udp"@,
        "accept"@ != "udp"@,
        "counter"@ != "udp"@,
        "return"@ != "udp"@,
        "redirect"@ != "udp"@,
        "ip"@ != "ip6"@,
        no_set_word("accept"@),
        no_set_word("counter"@),
        no_set_word("return"@),
        no_set_word("redirect"@),
        "{"@ != "127.0.0.1"@,
        "{"@ != "::1"@,
        "accept"@ != "return"@,
        "accept"@ != "}"@,
        "return"@ != "}"@,
{
    reveal_strlit("skuid");
    reveal_strlit("l4proto");
    reveal_strlit("meta");
    reveal_strlit("oif");
    reveal_strlit("tcp");
    reveal_strlit("udp");
    reveal_strlit("ip");
    reveal_strlit("ip6");
    reveal_strlit("accept");
    reveal_strlit("counter");
    reveal_strlit("return");
    reveal_strlit("redirect");
    reveal_strlit("{");
    reveal_strlit("}");
    reveal_strlit("127.0.0.1");
    reveal_strlit("::1");
    assert("oif"@[0] == 'o' && "tcp"@[0] == 't' && "udp"@[0] == 'u' && "ip6"@[0] == 'i');
    assert("accept"@[0] == 'a' && "return"@[0] == 'r');
    assert("skuid"@.len() == 5 && "l4proto"@.len() == 7 && "meta"@.len() == 4);
    assert("oif"@.len() == 3 && "tcp"@.len() == 3 && "udp"@.len() == 3 && "ip6"@.len() == 3);
    assert("ip"@.len() == 2 && "accept"@.len() == 6 && "return"@.len() == 6);
    assert("counter"@.len() == 7 && "redirect"@.len() == 8);
    assert("{"@.len() == 1 && "}"@.len() == 1 && "127.0.0.1"@.len() == 9 && "::1"@.len() == 3);
}

proof fn no_set(words: Seq<Seq<char>>, set: AddressSet)
    requires
        words.len() > 0,
        no_set_word(words[0]),
    ensures
        !begins(words, set_words(set)),
{
    let with = set_words(set);
    if begins(words, with) {
        assert(words.take(with.len() as int)[0] == words[0]);
        assert(with[0] == "ip"@ || with[0] == "ip6"@);
    }
}

proof fn verdicts_read_back(rule: Rule)
    ensures
        verdict_of(verdict_front(rule).push(verdict_last(rule))) == Some(rule.verdict),
{
    keywords_differ();
    let words = verdict_front(rule).push(verdict_last(rule));
    let accept = seq!["accept"@];
    let ret = seq!["return"@];
    match rule.verdict {
        Verdict::Accept => {
            assert(words =~= accept);
        },
        Verdict::Drop => {
            assert(words =~= seq!["counter"@, "drop"@]);
            assert(words.len() != accept.len());
        },
        Verdict::Return => {
            assert(words =~= ret);
            assert(words[0] != accept[0]);
        },
        Verdict::Redirect(port) => {
            let d = text::decimal_text(port as nat);
            texts::decimals_read_back(port as nat);
            assert(words =~= seq!["redirect"@, "to"@, seq![':'] + d]);
            assert(words[2].skip(1) =~= d);
            assert(words.len() == 3);
        },
    }
}

proof fn conditions_read_back(rule: Rule)
    ensures
        ({
            let words = condition_words(rule) + verdict_front(rule).push(verdict_last(rule));
            let (condition, n) = condition_of(words);
            &&& condition == rule.condition
            &&& words.skip(n) == verdict_front(rule).push(verdict_last(rule))
        }),
{
    keywords_differ();
    let cw = condition_words(rule);
    let vw = verdict_front(rule).push(verdict_last(rule));
    let words = cw + vw;
    assert(words.skip(cw.len() as int) =~= vw);
    match rule.condition {
        Condition::Always => {
            assert(words =~= vw);
            assert(vw[0] == "accept"@ || vw[0] == "counter"@ || vw[0] == "return"@ || vw[0]
                == "redirect"@);
            no_set(words, AddressSet::Localhost4);
            no_set(words, AddressSet::Localhost6);
            no_set(words, AddressSet::Local4);
            no_set(words, AddressSet::Local6);
        },
        Condition::OutLoopback => {
            assert(words[0] == "oif"@);
        },
        Condition::To(set) => {
            assert(words[0] == cw[0] && words[2] == cw[2]);
            assert(words.take(cw.len() as int) =~= cw);
            let l4 = set_words(AddressSet::Localhost4);
            let l6 = set_words(AddressSet::Localhost6);
            let n4 = set_words(AddressSet::Local4);
            assert(words.take(3)[0] == cw[0] && words.take(3)[2] == cw[2]);
            match set {
                AddressSet::Localhost4 => {},
                AddressSet::Localhost6 => {
                    assert(l4[0] != words.take(3)[0]);
                },
                AddressSet::Local4 => {
                    assert(l4[2] != words.take(3)[2]);
                    assert(l6[0] != words.take(3)[0]);
                },
                AddressSet::Local6 => {
                    assert(l4[0] != words.take(3)[0]);
                    assert(l6[2] != words.take(3)[2]);
                    if begins(words, n4) {
                        assert(n4[0] == words.take(8)[0]);
                    }
                },
            }
        },
        Condition::TcpPort(port) => {
            texts::decimals_read_back(port as nat);
            assert(words[0] == "tcp"@ && words[2] == cw[2]);
        },
        Condition::UdpPort(port) => {
            texts::decimals_read_back(port as nat);
            assert(words[0] == "udp"@ && words[2] == cw[2]);
        },
        Condition::Tcp => {
            assert(words[0] == "meta"@);
        },
    }
}

/// The line of a rule determines the rule: read back, it gives the rule's user,
/// condition and verdict.
pub proof fn rules_read_back(rule: Rule)
    ensures
        text::lines_of(rule.text()).len() == 1,
        rule_of(text::words_of(text::lines_of(rule.text())[0])) == Some(rule),
{
    rules_are_written(rule);
    words_read_back(rule);
    let line = rule_line(rule);
    texts::first_line(line, seq![]);
    assert(line + seq!['\n'] + seq![] =~= line + seq!['\n']);
    assert(text::lines_of(rule.text()) =~= seq![line]);
}

proof fn words_read_back(rule: Rule)
    ensures
        rule_of(rule_words(rule)) == Some(rule),
        rule_words(rule) != seq!["}"@],
{
    keywords_differ();
    verdicts_read_back(rule);
    conditions_read_back(rule);
    let words = rule_words(rule);
    let rest = condition_words(rule) + verdict_front(rule).push(verdict_last(rule));
    match rule.owner {
        Some(uid) => {
            texts::decimals_read_back(uid as nat);
            assert(words[0] == "meta"@ && words[1] == "skuid"@);
            assert(words[2] == text::decimal_text(uid as nat));
            assert(owner_of(words) == rule.owner);
            assert(words.skip(3) =~= rest);
            assert(words.len() > 3);
        },
        None => {
            assert(words =~= rest);
            if rule.condition is Tcp {
                assert(words[1] == "l4proto"@);
            }
            assert(owner_of(words) == rule.owner);
            if words == seq!["}"@] {
                assert(words[0] == "}"@);
                assert(words.len() == 1);
            }
        },
    }
}

/// Rules that are written alike are the same rule.
pub proof fn rules_differ(a: Rule, b: Rule)
    requires
        a.text() == b.text(),
    ensures
        a == b,
{
    rules_read_back(a);
    rules_read_back(b);
}

// ---------------------------------------------------------------------------
// Scripts.
// ---------------------------------------------------------------------------
spec fn rule_lines(rules: Seq<Rule>) -> Seq<Seq<char>> {
    rules.map_values(|r: Rule| rule_line(r))
}

proof fn rule_lists_are_written(rules: Seq<Rule>)
    ensures
        nft::rules_text(rules) == texts::lined(rule_lines(rules)),
        texts::all_lines(rule_lines(rules)),
    decreases rules.len(),
{
    let lines = rule_lines(rules);
    if rules.len() > 0 {
        let front = rules.drop_last();
        rule_lists_are_written(front);
        rules_are_written(rules.last());
        texts::one_line(rule_line(rules.last()));
        texts::lined_joins(rule_lines(front), seq![rule_line(rules.last())]);
        assert(lines =~= rule_lines(front) + seq![rule_line(rules.last())]);
        assert forall|i: int| 0 <= i < lines.len() implies texts::is_line(#[trigger] lines[i]) by {
            if i < front.len() {
                assert(lines[i] == rule_lines(front)[i]);
            }
        }
    }
}

/// The words of the two lines that open a chain.
pub open spec fn chain_head(hook: Hook) -> (Seq<Seq<char>>, Seq<Seq<char>>) {
    match hook {
        Hook::FilterOutput => (
            seq!["chain"@, "output"@, "{"@],
            seq![
                "type"@,
                "filter"@,
                "hook"@,
                "output"@,
                "priority"@,
                "0;"@,
                "policy"@,
                "accept;"@,
            ],
        ),
        Hook::NatOutput => (
            seq!["chain"@, "output"@, "{"@],
            seq![
                "type"@,
                "nat"@,
                "hook"@,
                "output"@,
                "priority"@,
                "-100;"@,
                "policy"@,
                "accept;"@,
            ],
        ),
        Hook::NatPrerouting => (
            seq!["chain"@, "prerouting"@, "{"@],
            seq![
                "type"@,
                "nat"@,
                "hook"@,
                "prerouting"@,
                "priority"@,
                "-100;"@,
                "policy"@,
                "accept;"@,
            ],
        ),
    }
}

spec fn chain_lines(hook: Hook) -> (Seq<char>, Seq<char>) {
    match hook {
        Hook::FilterOutput => (
            "\tchain output {"@,
            "\t\ttype filter hook output priority 0; policy accept;"@,
        ),
        Hook::NatOutput => (
            "\tchain output {"@,
            "\t\ttype nat hook output priority -100; policy accept;"@,
        ),
        Hook::NatPrerouting => (
            "\tchain prerouting {"@,
            "\t\ttype nat hook prerouting priority -100; policy accept;"@,
        ),
    }
}

proof fn hooks_are_split(hook: Hook)
    ensures
        nft::hook_text(hook) == chain_lines(hook).0 + seq!['\n'] + chain_lines(hook).1 + seq!['\n'],
        texts::is_line(chain_lines(hook).0),
        texts::is_line(chain_lines(hook).1),
{
    reveal_strlit("\tchain output {");
    reveal_strlit("\tchain prerouting {");
    reveal_strlit("\t\ttype filter hook output priority 0; policy accept;");
    reveal_strlit("\t\ttype nat hook output priority -100; policy accept;");
    reveal_strlit("\t\ttype nat hook prerouting priority -100; policy accept;");
    reveal_strlit("\tchain output {\n\t\ttype filter hook output priority 0; policy accept;\n");
    reveal_strlit("\tchain output {\n\t\ttype nat hook output priority -100; policy accept;\n");
    reveal_strlit(
        "\tchain prerouting {\n\t\ttype nat hook prerouting priority -100; policy accept;\n",
    );
    assert(nft::hook_text(hook) =~= chain_lines(hook).0 + seq!['\n'] + chain_lines(hook).1
        + seq!['\n']);
}

proof fn brace_lines()
    ensures
        text::words_of("\tchain output {"@) == seq!["chain"@, "output"@, "{"@],
        text::words_of("\tchain prerouting {"@) == seq!["chain"@, "prerouting"@, "{"@],
        text::words_of("\t}"@) == seq!["}"@],
        text::words_of("}"@) == seq!["}"@],
        "\t}\n"@ == "\t}"@ + seq!['\n'],
        "}\n"@ == "}"@ + seq!['\n'],
        texts::is_line("\t}"@),
        texts::is_line("}"@),
{
    reveal_strlit("chain");
    reveal_strlit("output");
    reveal_strlit("prerouting");
    reveal_strlit("{");
    reveal_strlit("}");
    reveal_strlit("\t}");
    reveal_strlit("\t}\n");
    reveal_strlit("}\n");
    reveal_strlit("\tchain output {");
    reveal_strlit("\tchain prerouting {");
    assert("\t}\n"@ =~= "\t}"@ + seq!['\n']);
    assert("}\n"@ =~= "}"@ + seq!['\n']);
    let out = seq!["chain"@, "output"@];
    let pre = seq!["chain"@, "prerouting"@];
    two_words("chain"@, "output"@);
    two_words("chain"@, "prerouting"@);
    assert(texts::is_word("chain"@));
    assert(texts::is_word("output"@));
    assert(texts::is_word("prerouting"@));
    assert(texts::is_word("{"@));
    assert(texts::is_word("}"@));
    assert("\tchain output {"@ =~= seq!['\t'] + (texts::spaced(out) + "{"@));
    assert("\tchain prerouting {"@ =~= seq!['\t'] + (texts::spaced(pre) + "{"@));
    assert("\t}"@ =~= seq!['\t'] + "}"@);
    texts::leading_white('\t', texts::spaced(out) + "{"@);
    texts::leading_white('\t', texts::spaced(pre) + "{"@);
    texts::leading_white('\t', "}"@);
    texts::spaced_words(out, "{"@);
    texts::spaced_words(pre, "{"@);
    texts::last_word("{"@);
    texts::last_word("}"@);
    assert(out + seq!["{"@] =~= seq!["chain"@, "output"@, "{"@]);
    assert(pre + seq!["{"@] =~= seq!["chain"@, "prerouting"@, "{"@]);
}

/// Seven words and an eighth, behind two tabs.
proof fn eight_words(
    a: Seq<char>,
    b: Seq<char>,
    c: Seq<char>,
    d: Seq<char>,
    e: Seq<char>,
    f: Seq<char>,
    g: Seq<char>,
    h: Seq<char>,
)
    requires
        texts::all_words(seq![a, b, c, d, e, f, g, h]),
    ensures
        ({
            let sp = seq![' '];
            text::words_of(
                seq!['\t', '\t'] + (a + sp + b + sp + c + sp + d + sp + e + sp + f + sp + g + sp
                    + h),
            ) == seq![a, b, c, d, e, f, g, h]
        }),
{
    let sp = seq![' '];
    let all = seq![a, b, c, d, e, f, g, h];
    let w2 = seq![a, b];
    let w7 = w2.push(c).push(d).push(e).push(f).push(g);
    two_words(a, b);
    one_more(w2, c);
    one_more(w2.push(c), d);
    one_more(w2.push(c).push(d), e);
    one_more(w2.push(c).push(d).push(e), f);
    one_more(w2.push(c).push(d).push(e).push(f), g);
    let body = a + sp + b + sp + c + sp + d + sp + e + sp + f + sp + g + sp + h;
    assert(texts::spaced(w7) + h == body);
    assert forall|i: int| 0 <= i < w7.len() implies texts::is_word(#[trigger] w7[i]) by {
        assert(w7[i] == all[i]);
    }
    assert(texts::is_word(all[7]));
    texts::spaced_words(w7, h);
    texts::last_word(h);
    texts::leading_white('\t', seq!['\t'] + body);
    texts::leading_white('\t', body);
    assert(seq!['\t'] + (seq!['\t'] + body) =~= seq!['\t', '\t'] + body);
    assert(w7 + seq![h] =~= all);
}

proof fn filter_output_line()
    ensures
        text::words_of("\t\ttype filter hook output priority 0; policy accept;"@) == seq![
            "type"@,
            "filter"@,
            "hook"@,
            "output"@,
            "priority"@,
            "0;"@,
            "policy"@,
            "accept;"@,
        ],
{
    reveal_strlit("\t\ttype filter hook output priority 0; policy accept;");
    reveal_strlit("type");
    reveal_strlit("filter");
    reveal_strlit("hook");
    reveal_strlit("output");
    reveal_strlit("priority");
    reveal_strlit("0;");
    reveal_strlit("policy");
    reveal_strlit("accept;");
    assert(texts::is_word("type"@));
    assert(texts::is_word("filter"@));
    assert(texts::is_word("hook"@));
    assert(texts::is_word("output"@));
    assert(texts::is_word("priority"@));
    assert(texts::is_word("0;"@));
    assert(texts::is_word("policy"@));
    assert(texts::is_word("accept;"@));
    let sp = seq![' '];
    eight_words(
        "type"@,
        "filter"@,
        "hook"@,
        "output"@,
        "priority"@,
        "0;"@,
        "policy"@,
        "accept;"@,
    );
    assert("\t\ttype filter hook output priority 0; policy accept;"@ =~= seq!['\t', '\t'] + ("type"@ + sp + "filter"@ + sp + "hook"@ + sp + "output"@ + sp + "priority"@ + sp + "0;"@ + sp + "policy"@ + sp + "accept;"@));
}

proof fn nat_output_line()
    ensures
        text::words_of("\t\ttype nat hook output priority -100; policy accept;"@) == seq![
            "type"@,
            "nat"@,
            "hook"@,
            "output"@,
            "priority"@,
            "-100;"@,
            "policy"@,
            "accept;"@,
        ],
{
    reveal_strlit("\t\ttype nat hook output priority -100; policy accept;");
    reveal_strlit("type");
    reveal_strlit("nat");
    reveal_strlit("hook");
    reveal_strlit("output");
    reveal_strlit("priority");
    reveal_strlit("-100;");
    reveal_strlit("policy");
    reveal_strlit("accept;");
    assert(texts::is_word("type"@));
    assert(texts::is_word("nat"@));
    assert(texts::is_word("hook"@));
    assert(texts::is_word("output"@));
    assert(texts::is_word("priority"@));
    assert(texts::is_word("-100;"@));
    assert(texts::is_word("policy"@));
    assert(texts::is_word("accept;"@));
    let sp = seq![' '];
    eight_words(
        "type"@,
        "nat"@,
        "hook"@,
        "output"@,
        "priority"@,
        "-100;"@,
        "policy"@,
        "accept;"@,
    );
    assert("\t\ttype nat hook output priority -100; policy accept;"@ =~= seq!['\t', '\t'] + ("type"@ + sp + "nat"@ + sp + "hook"@ + sp + "output"@ + sp + "priority"@ + sp + "-100;"@ + sp + "policy"@ + sp + "accept;"@));
}

proof fn nat_prerouting_line()
    ensures
        text::words_of("\t\ttype nat hook prerouting priority -100; policy accept;"@) == seq![
            "type"@,
            "nat"@,
            "hook"@,
            "prerouting"@,
            "priority"@,
            "-100;"@,
            "policy"@,
            "accept;"@,
        ],
{
    reveal_strlit("\t\ttype nat hook prerouting priority -100; policy accept;");
    reveal_strlit("type");
    reveal_strlit("nat");
    reveal_strlit("hook");
    reveal_strlit("prerouting");
    reveal_strlit("priority");
    reveal_strlit("-100;");
    reveal_strlit("policy");
    reveal_strlit("accept;");
    assert(texts::is_word("type"@));
    assert(texts::is_word("nat"@));
    assert(texts::is_word("hook"@));
    assert(texts::is_word("prerouting"@));
    assert(texts::is_word("priority"@));
    assert(texts::is_word("-100;"@));
    assert(texts::is_word("policy"@));
    assert(texts::is_word("accept;"@));
    let sp = seq![' '];
    eight_words(
        "type"@,
        "nat"@,
        "hook"@,
        "prerouting"@,
        "priority"@,
        "-100;"@,
        "policy"@,
        "accept;"@,
    );
    assert("\t\ttype nat hook prerouting priority -100; policy accept;"@ =~= seq!['\t', '\t'] + ("type"@ + sp + "nat"@ + sp + "hook"@ + sp + "prerouting"@ + sp + "priority"@ + sp + "-100;"@ + sp + "policy"@ + sp + "accept;"@));
}

spec fn header_line(table: Seq<char>) -> Seq<char> {
    "table inet "@ + table + " {"@
}

proof fn headers_are_written(table: Seq<char>)
    requires
        texts::is_word(table),
    ensures
        nft::table_header(table) == header_line(table) + seq!['\n'],
        texts::is_line(header_line(table)),
        text::words_of(header_line(table)) == seq!["table"@, "inet"@, table, "{"@],
{
    reveal_strlit("table");
    reveal_strlit("inet");
    reveal_strlit("table inet ");
    reveal_strlit("{");
    reveal_strlit(" {");
    reveal_strlit(" {\n");
    let front = seq!["table"@, "inet"@].push(table);
    two_words("table"@, "inet"@);
    one_more(seq!["table"@, "inet"@], table);
    assert("table inet "@ =~= "table"@ + seq![' '] + "inet"@ + seq![' ']);
    assert(" {\n"@ =~= " {"@ + seq!['\n']);
    assert(" {"@ =~= seq![' '] + "{"@);
    assert(nft::table_header(table) =~= header_line(table) + seq!['\n']);
    assert(header_line(table) =~= texts::spaced(front) + "{"@);
    assert(texts::is_word("table"@));
    assert(texts::is_word("inet"@));
    assert(texts::is_word("{"@));
    texts::spaced_words(front, "{"@);
    texts::last_word("{"@);
    assert(front + seq!["{"@] =~= seq!["table"@, "inet"@, table, "{"@]);
    spaced_is_line(front);
    let line = header_line(table);
    assert forall|i: int| 0 <= i < line.len() implies #[trigger] line[i] != '\n' by {
        if i < texts::spaced(front).len() {
            assert(line[i] == texts::spaced(front)[i]);
        }
    }
    assert(line.last() == '{');
}

spec fn chain_of(hook: Hook, rules: Seq<Rule>) -> Seq<Seq<char>> {
    seq![chain_lines(hook).0, chain_lines(hook).1] + rule_lines(rules) + seq!["\t}"@]
}

proof fn chains_are_written(hook: Hook, rules: Seq<Rule>)
    ensures
        nft::chain_text(hook, rules) == texts::lined(chain_of(hook, rules)),
        texts::all_lines(chain_of(hook, rules)),
{
    hooks_are_split(hook);
    rule_lists_are_written(rules);
    brace_lines();
    let (a, b) = chain_lines(hook);
    let head = seq![a, b];
    let lines = rule_lines(rules);
    let end = seq!["\t}"@];
    texts::one_line(a);
    texts::one_line(b);
    texts::one_line("\t}"@);
    texts::lined_joins(seq![a], seq![b]);
    assert(seq![a] + seq![b] =~= head);
    texts::lined_joins(head, lines);
    texts::lined_joins(head + lines, end);
    assert(texts::lined(head) =~= nft::hook_text(hook));
    let all = chain_of(hook, rules);
    assert forall|i: int| 0 <= i < all.len() implies texts::is_line(#[trigger] all[i]) by {
        if 2 <= i < 2 + lines.len() {
            assert(all[i] == lines[i - 2]);
        }
    }
}

proof fn chain_heads_read_back(hook: Hook)
    ensures
        text::words_of(chain_lines(hook).0) == chain_head(hook).0,
        text::words_of(chain_lines(hook).1) == chain_head(hook).1,
{
    brace_lines();
    filter_output_line();
    nat_output_line();
    nat_prerouting_line();
}

/// Rules that stand in a row in front of a closing brace are read back.
proof fn rows_read_back(lines: Seq<Seq<Seq<char>>>, i: int, rules: Seq<Rule>)
    requires
        0 <= i,
        i + rules.len() < lines.len(),
        forall|k: int| 0 <= k < rules.len() ==> lines[i + k] == rule_words(#[trigger] rules[k]),
        lines[i + rules.len()] == seq!["}"@],
    ensures
        rules_from(lines, i) == understood(rules),
    decreases rules.len(),
{
    if rules.len() == 0 {
        assert(rules_from(lines, i) =~= understood(rules));
    } else {
        let rest = rules.drop_first();
        assert(lines[i + 0] == rule_words(rules[0]));
        words_read_back(rules[0]);
        assert forall|k: int| 0 <= k < rest.len() implies lines[i + 1 + k] == rule_words(
            #[trigger] rest[k],
        ) by {
            assert(rest[k] == rules[k + 1]);
            assert(lines[i + (k + 1)] == rule_words(rules[k + 1]));
        }
        rows_read_back(lines, i + 1, rest);
        assert(seq![Some(rules[0])] + understood(rest) =~= understood(rules));
    }
}

/// Whether statements from `i` on are a chain: its two opening lines, the rules,
/// and a closing brace.
pub open spec fn chain_stands(
    lines: Seq<Seq<Seq<char>>>,
    i: int,
    hook: Hook,
    rules: Seq<Rule>,
) -> bool {
    &&& 0 <= i
    &&& i + 2 + rules.len() < lines.len()
    &&& lines[i] == chain_head(hook).0
    &&& lines[i + 1] == chain_head(hook).1
    &&& rules_from(lines, i + 2) == understood(rules)
    &&& lines[i + 2 + rules.len()] == seq!["}"@]
}

proof fn chains_read_back(
    before: Seq<Seq<char>>,
    hook: Hook,
    rules: Seq<Rule>,
    after: Seq<Seq<char>>,
)
    ensures
        chain_stands(
            (before + chain_of(hook, rules) + after).map_values(
                |line: Seq<char>| text::words_of(line),
            ),
            before.len() as int,
            hook,
            rules,
        ),
{
    let words = |line: Seq<char>| text::words_of(line);
    let all = before + chain_of(hook, rules) + after;
    let lines = all.map_values(words);
    let i = before.len() as int;
    let chain = chain_of(hook, rules);
    chain_heads_read_back(hook);
    brace_lines();
    assert(all[i] == chain[0] && all[i + 1] == chain[1]);
    assert(all[i + 2 + rules.len()] == chain[2 + rules.len() as int]);
    assert forall|k: int| 0 <= k < rules.len() implies lines[i + 2 + k] == rule_words(
        #[trigger] rules[k],
    ) by {
        assert(all[i + 2 + k] == chain[2 + k]);
        assert(chain[2 + k] == rule_lines(rules)[k]);
        rules_are_written(rules[k]);
    }
    rows_read_back(lines, i + 2, rules);
}

proof fn switch_tables_are_words(switch: KillSwitch)
    ensures
        texts::is_word(switch.table_name()),
        texts::is_word("anonet_transparent"@),
{
    reveal_strlit("anonet_ks_scoped");
    reveal_strlit("anonet_ks_system");
    reveal_strlit("anonet_transparent");
}

/// Each switch has its table, whoever its user is.
pub proof fn tables_have_their_names(uid: u32)
    ensures
        (KillSwitch::Scoped { protect_uid: uid }).table_name() == "anonet_ks_scoped"@,
        (KillSwitch::Radical { anonet_uid: uid }).table_name() == "anonet_ks_system"@,
{
}

/// The script of a kill switch is read as a table of the switch's name that
/// holds one chain, which filters what local processes send, with the switch's
/// rules.
pub proof fn switch_scripts_read_back(switch: KillSwitch)
    ensures
        ({
            let lines = statements(switch.ruleset_text());
            let n = switch.rules().len() as int;
            &&& lines.len() == n + 5
            &&& lines[0] == seq!["table"@, "inet"@, switch.table_name(), "{"@]
            &&& chain_stands(lines, 1, Hook::FilterOutput, switch.rules())
            &&& lines[n + 4] == seq!["}"@]
        }),
{
    let table = switch.table_name();
    let rules = switch.rules();
    let head = seq![header_line(table)];
    let chain = chain_of(Hook::FilterOutput, rules);
    let end = seq!["}"@];
    switch_tables_are_words(switch);
    headers_are_written(table);
    chains_are_written(Hook::FilterOutput, rules);
    brace_lines();
    texts::one_line(header_line(table));
    texts::one_line("}"@);
    texts::lined_joins(head, chain);
    texts::lined_joins(head + chain, end);
    texts::all_lines_join(head, chain);
    texts::all_lines_join(head + chain, end);
    let all = head + chain + end;
    texts::lines_read_back(all);
    assert(switch.ruleset_text() == texts::lined(all));
    chains_read_back(head, Hook::FilterOutput, rules, end);
    let lines = statements(switch.ruleset_text());
    assert(lines[0] == text::words_of(all[0]));
    assert(lines[rules.len() as int + 4] == text::words_of(all[rules.len() as int + 4]));
}

/// The script of a redirection is read as a table that holds two chains with the
/// redirection's rules, of which one rewrites what arrives and one what local
/// processes send.
pub proof fn redirect_scripts_read_back(r: TransparentRedirect)
    ensures
        ({
            let lines = statements(r.ruleset_text());
            &&& lines.len() == 20
            &&& lines[0] == seq!["table"@, "inet"@, "anonet_transparent"@, "{"@]
            &&& chain_stands(lines, 1, Hook::NatPrerouting, r.rules())
            &&& chain_stands(lines, 10, Hook::NatOutput, r.rules())
            &&& lines[19] == seq!["}"@]
        }),
{
    let table = "anonet_transparent"@;
    let rules = r.rules();
    let head = seq![header_line(table)];
    let first = chain_of(Hook::NatPrerouting, rules);
    let second = chain_of(Hook::NatOutput, rules);
    let end = seq!["}"@];
    switch_tables_are_words(KillSwitch::Scoped { protect_uid: 0 });
    headers_are_written(table);
    chains_are_written(Hook::NatPrerouting, rules);
    chains_are_written(Hook::NatOutput, rules);
    brace_lines();
    texts::one_line(header_line(table));
    texts::one_line("}"@);
    texts::lined_joins(head, first);
    texts::lined_joins(head + first, second);
    texts::lined_joins(head + first + second, end);
    texts::all_lines_join(head, first);
    texts::all_lines_join(head + first, second);
    texts::all_lines_join(head + first + second, end);
    let all = head + first + second + end;
    texts::lines_read_back(all);
    assert(r.ruleset_text() == texts::lined(all));
    chains_read_back(head, Hook::NatPrerouting, rules, second + end);
    assert(head + first + (second + end) =~= all);
    chains_read_back(head + first, Hook::NatOutput, rules, end);
    let lines = statements(r.ruleset_text());
    assert(lines[0] == text::words_of(all[0]));
    assert(lines[19] == text::words_of(all[19]));
}

// ---------------------------------------------------------------------------
// What scripts do.
// ---------------------------------------------------------------------------
/// What a chain that was read does with a packet: nothing is known of it unless
/// every rule was understood.
pub open spec fn read_verdict(rules: Seq<Option<Rule>>, p: Packet) -> Option<Verdict>
    decreases rules.len(),
{
    if rules.len() == 0 {
        Some(Verdict::Accept)
    } else {
        match rules[0] {
            None => None,
            Some(rule) => if nft::rule_matches(rule, p) {
                Some(rule.verdict)
            } else {
                read_verdict(rules.drop_first(), p)
            },
        }
    }
}

proof fn read_verdicts_agree(rules: Seq<Rule>, p: Packet)
    ensures
        read_verdict(understood(rules), p) == Some(nft::chain_verdict(rules, p)),
    decreases rules.len(),
{
    if rules.len() > 0 {
        read_verdicts_agree(rules.drop_first(), p);
        assert(understood(rules).drop_first() =~= understood(rules.drop_first()));
    }
}

/// The script handed to `nft` for the scoped switch confines its user: of that
/// user's packets it drops exactly those that neither leave through the loopback
/// interface nor go to localhost; packets of others it accepts.
pub proof fn scoped_script_confines_its_user(protect_uid: u32, p: Packet)
    ensures
        ({
            let script = (KillSwitch::Scoped { protect_uid }).ruleset_text();
            let confined = p.owner == Some(protect_uid) && !p.out_loopback && !nft::is_localhost(
                p.dst,
            );
            read_verdict(rules_from(statements(script), 3), p) == Some(
                if confined {
                    Verdict::Drop
                } else {
                    Verdict::Accept
                },
            )
        }),
{
    let switch = KillSwitch::Scoped { protect_uid };
    switch_scripts_read_back(switch);
    read_verdicts_agree(switch.rules(), p);
    nft::local_sets_are_local(p.dst);
    reveal_with_fuel(nft::chain_verdict, 5);
}

/// The script handed to `nft` for the radical switch drops exactly the packets
/// that neither leave through the loopback interface nor are anonet's own.
pub proof fn radical_script_drops_all_else(anonet_uid: u32, p: Packet)
    ensures
        ({
            let script = (KillSwitch::Radical { anonet_uid }).ruleset_text();
            read_verdict(rules_from(statements(script), 3), p) == Some(
                if p.out_loopback || p.owner == Some(anonet_uid) {
                    Verdict::Accept
                } else {
                    Verdict::Drop
                },
            )
        }),
{
    let switch = KillSwitch::Radical { anonet_uid };
    switch_scripts_read_back(switch);
    read_verdicts_agree(switch.rules(), p);
    reveal_with_fuel(nft::chain_verdict, 4);
}

/// Both chains of the script handed to `nft` for a redirection leave alone what
/// anonet's own user sends, what goes to a local destination, and SSH; of the
/// rest they send DNS to the one port and TCP to the other.
pub proof fn redirect_script_takes_tcp_and_dns(r: TransparentRedirect, p: Packet)
    ensures
        ({
            let lines = statements(r.ruleset_text());
            let left_alone = p.owner == Some(r.anonet_uid) || nft::is_local(p.dst) || (
            p.protocol is Tcp && p.port == 22);
            let wanted = if left_alone {
                Verdict::Return
            } else if p.protocol is Udp && p.port == 53 {
                Verdict::Redirect(r.dns_port)
            } else if p.protocol is Tcp {
                Verdict::Redirect(r.trans_port)
            } else {
                Verdict::Accept
            };
            &&& read_verdict(rules_from(lines, 3), p) == Some(wanted)
            &&& read_verdict(rules_from(lines, 12), p) == Some(wanted)
        }),
{
    redirect_scripts_read_back(r);
    read_verdicts_agree(r.rules(), p);
    nft::local_sets_are_local(p.dst);
    reveal_with_fuel(nft::chain_verdict, 7);
}

/// Scripts that are the same are of the same switch, and for the same user.
pub proof fn switch_scripts_differ(a: KillSwitch, b: KillSwitch)
    requires
        a.ruleset_text() == b.ruleset_text(),
    ensures
        a == b,
{
    switch_scripts_read_back(a);
    switch_scripts_read_back(b);
    let x = understood(a.rules());
    let y = understood(b.rules());
    assert(x.len() == y.len());
    assert(x[0] == Some(a.rules()[0]) && y[0] == Some(b.rules()[0]));
    assert(x[1] == Some(a.rules()[1]) && y[1] == Some(b.rules()[1]));
}

/// Scripts that are the same redirect the same to the same ports.
pub proof fn redirect_scripts_differ(a: TransparentRedirect, b: TransparentRedirect)
    requires
        a.ruleset_text() == b.ruleset_text(),
    ensures
        a == b,
{
    redirect_scripts_read_back(a);
    redirect_scripts_read_back(b);
    let x = understood(a.rules());
    let y = understood(b.rules());
    assert(x[0] == Some(a.rules()[0]) && y[0] == Some(b.rules()[0]));
    assert(x[4] == Some(a.rules()[4]) && y[4] == Some(b.rules()[4]));
    assert(x[5] == Some(a.rules()[5]) && y[5] == Some(b.rules()[5]));
}

/// The script that removes a table is one line, which says to delete that table
/// of the `inet` family.
pub proof fn removal_scripts_read_back(table: Seq<char>)
    requires
        texts::is_word(table),
    ensures
        statements(nft::delete_text(table)) == seq![
            seq!["delete"@, "table"@, "inet"@, table],
        ],
{
    reveal_strlit("delete");
    reveal_strlit("table");
    reveal_strlit("inet");
    reveal_strlit("delete table inet ");
    reveal_strlit("\n");
    assert("\n"@ =~= seq!['\n']);
    let front = seq!["delete"@, "table"@].push("inet"@);
    two_words("delete"@, "table"@);
    one_more(seq!["delete"@, "table"@], "inet"@);
    assert("delete table inet "@ =~= "delete"@ + seq![' '] + "table"@ + seq![' '] + "inet"@ + seq![
        ' ',
    ]);
    assert(texts::is_word("delete"@));
    assert(texts::is_word("table"@));
    assert(texts::is_word("inet"@));
    let line = "delete table inet "@ + table;
    texts::spaced_words(front, table);
    texts::last_word(table);
    assert(front + seq![table] =~= seq!["delete"@, "table"@, "inet"@, table]);
    assert forall|i: int| 0 <= i < line.len() implies #[trigger] line[i] != '\n' by {
        if i >= "delete table inet "@.len() {
            assert(line[i] == table[i - "delete table inet "@.len()]);
            assert(!texts::is_white(table[i - "delete table inet "@.len()]));
        }
    }
    assert(line.last() == table.last());
    assert(!texts::is_white(table[table.len() - 1]));
    texts::first_line(line, seq![]);
    assert(line + seq!['\n'] + seq![] =~= nft::delete_text(table));
    assert(text::lines_of(nft::delete_text(table)) =~= seq![line]);
    assert(statements(nft::delete_text(table)) =~= seq![text::words_of(line)]);
}

} // verus!
