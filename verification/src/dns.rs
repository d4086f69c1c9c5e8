//! A DNS-over-UDP responder for one question at a time (A and AAAA only),
//! whose answers come from a resolver that the caller runs: the query is
//! parsed, the caller resolves the name, and the reply is built from what came
//! back.
use crate::net::IpAddress;
use crate::text;
use vstd::prelude::*;
use vstd::string::*;

verus! {

/// Query type of IPv4 address records.
pub const QTYPE_A: u16 = 1;

/// Query type of IPv6 address records.
pub const QTYPE_AAAA: u16 = 28;

/// The Internet class.
pub const QCLASS_IN: u16 = 1;

/// Response code: no error.
pub const RCODE_NOERROR: u8 = 0;

/// Response code: the resolver failed.
pub const RCODE_SERVFAIL: u8 = 2;

/// Response code: no such name (or no address of the asked family).
pub const RCODE_NXDOMAIN: u8 = 3;

/// Response code: this kind of query is not implemented.
pub const RCODE_NOTIMP: u8 = 4;

/// How long an answer may be cached.
pub const ANSWER_TTL_SECS: u32 = 60;

/// Why a message is not a query that can be answered.
#[derive(Debug)]
pub enum QueryError {
    /// Shorter than a DNS header.
    ShortMessage,
    /// The header announces no question.
    NoQuestions,
    /// The message ends inside the name, at a label length.
    TruncatedName,
    /// A label length is a compression pointer (or reserved).
    CompressedName,
    /// The message ends inside a label.
    TruncatedLabel,
    /// The message ends before the type and class of the question.
    TruncatedType,
    /// The question is not of the Internet class.
    UnsupportedClass(u16),
}

impl QueryError {
    /// A one-line description.
    pub open spec fn text(self) -> Seq<char> {
        match self {
            QueryError::ShortMessage => "message shorter than a DNS header"@,
            QueryError::NoQuestions => "query has no questions"@,
            QueryError::TruncatedName => "truncated qname"@,
            QueryError::CompressedName => "compressed QNAME in a query is not supported"@,
            QueryError::TruncatedLabel => "truncated qname label"@,
            QueryError::TruncatedType => "truncated qtype/qclass"@,
            QueryError::UnsupportedClass(c) => "unsupported query class "@ + text::decimal_text(
                c as nat,
            ),
        }
    }

    /// A one-line description.
    pub fn message(&self) -> (s: String)
        ensures
            s@ == self.text(),
    {
        match self {
            QueryError::ShortMessage => "message shorter than a DNS header".to_owned(),
            QueryError::NoQuestions => "query has no questions".to_owned(),
            QueryError::TruncatedName => "truncated qname".to_owned(),
            QueryError::CompressedName => "compressed QNAME in a query is not supported".to_owned(),
            QueryError::TruncatedLabel => "truncated qname label".to_owned(),
            QueryError::TruncatedType => "truncated qtype/qclass".to_owned(),
            QueryError::UnsupportedClass(c) => {
                let mut s = "unsupported query class ".to_owned();
                s.append(text::decimal(*c as u128).as_str());
                s
            },
        }
    }
}

/// A question, as parsed from a request.
#[derive(Debug)]
pub struct ParsedQuery {
    /// The transaction identifier.
    pub id: u16,
    /// The question's raw bytes (name, type and class), for the reply to echo.
    pub question_raw: Vec<u8>,
    /// The name asked for, its labels joined with dots.
    pub qname: String,
    /// The type asked for.
    pub qtype: u16,
}

/// A question as a mathematical value.
pub struct Question {
    /// The transaction identifier.
    pub id: u16,
    /// The labels of the name.
    pub labels: Seq<Seq<u8>>,
    /// The type asked for.
    pub qtype: u16,
}

impl ParsedQuery {
    /// Whether this is the parsed form of `q`.
    pub open spec fn represents(self, q: Question) -> bool {
        &&& self.id == q.id
        &&& self.question_raw@ == question_bytes(q.labels, q.qtype)
        &&& self.qname@ == name_text(q.labels)
        &&& self.qtype == q.qtype
    }
}

/// A 16-bit number in network order.
pub open spec fn be16(n: nat) -> Seq<u8> {
    seq![(n / 256 % 256) as u8, (n % 256) as u8]
}

/// A 32-bit number in network order.
pub open spec fn be32(n: nat) -> Seq<u8> {
    be16(n / 65536) + be16(n % 65536)
}

/// The 16-bit number at position `i`.
pub open spec fn u16_at(buf: Seq<u8>, i: int) -> u16 {
    (buf[i] * 256 + buf[i + 1]) as u16
}

/// A name on the wire: each label after its length, then a zero byte.
pub open spec fn wire_name(labels: Seq<Seq<u8>>) -> Seq<u8>
    decreases labels.len(),
{
    if labels.len() == 0 {
        seq![0u8]
    } else {
        seq![labels[0].len() as u8] + labels[0] + wire_name(labels.skip(1))
    }
}

/// A question on the wire: the name, the type, and the Internet class.
pub open spec fn question_bytes(labels: Seq<Seq<u8>>, qtype: u16) -> Seq<u8> {
    wire_name(labels) + be16(qtype as nat) + be16(QCLASS_IN as nat)
}

/// Whether each label has 1 to 63 bytes.
pub open spec fn valid_labels(labels: Seq<Seq<u8>>) -> bool {
    forall|i: int| 0 <= i < labels.len() ==> 0 < (#[trigger] labels[i]).len() < 64
}

/// The text of a name: its labels joined with dots.
pub open spec fn name_text(labels: Seq<Seq<u8>>) -> Seq<char> {
    text::join_texts(labels.map_values(|l: Seq<u8>| text::lossy_text(l)), "."@)
}

/// What reading an uncompressed name gives.
pub enum NameRead {
    /// The message ended at a label length.
    Truncated,
    /// A label length of 64 or more.
    Compressed,
    /// The message ended inside a label.
    TruncatedLabel,
    /// The labels, and the position after the name.
    Name { labels: Seq<Seq<u8>>, end: int },
}

impl NameRead {
    /// The same outcome with `done` read before.
    pub open spec fn after(self, done: Seq<Seq<u8>>) -> NameRead {
        match self {
            NameRead::Name { labels, end } => NameRead::Name { labels: done + labels, end },
            other => other,
        }
    }
}

/// Reads the name at position `pos`.
pub open spec fn read_name(buf: Seq<u8>, pos: int) -> NameRead
    decreases buf.len() - pos,
{
    if !(0 <= pos < buf.len()) {
        NameRead::Truncated
    } else if buf[pos] == 0 {
        NameRead::Name { labels: Seq::empty(), end: pos + 1 }
    } else if buf[pos] >= 64 {
        NameRead::Compressed
    } else if pos + 1 + buf[pos] > buf.len() {
        NameRead::TruncatedLabel
    } else {
        read_name(buf, pos + 1 + buf[pos]).after(
            seq![buf.subrange(pos + 1, pos + 1 + buf[pos])],
        )
    }
}

/// The question that a message asks, or why it cannot be answered.
pub open spec fn query_of(buf: Seq<u8>) -> Result<Question, QueryError> {
    if buf.len() < 12 {
        Err(QueryError::ShortMessage)
    } else if u16_at(buf, 4) == 0 {
        Err(QueryError::NoQuestions)
    } else {
        match read_name(buf, 12) {
            NameRead::Truncated => Err(QueryError::TruncatedName),
            NameRead::Compressed => Err(QueryError::CompressedName),
            NameRead::TruncatedLabel => Err(QueryError::TruncatedLabel),
            NameRead::Name { labels, end } => if end + 4 > buf.len() {
                Err(QueryError::TruncatedType)
            } else if u16_at(buf, end + 2) != QCLASS_IN {
                Err(QueryError::UnsupportedClass(u16_at(buf, end + 2)))
            } else {
                Ok(Question { id: u16_at(buf, 0), labels, qtype: u16_at(buf, end) })
            },
        }
    }
}

/// What was read is what stands on the wire.
proof fn read_name_is_wire(buf: Seq<u8>, pos: int)
    ensures
        read_name(buf, pos) matches NameRead::Name { labels, end } ==> {
            &&& 0 <= pos < end <= buf.len()
            &&& buf.subrange(pos, end) == wire_name(labels)
            &&& valid_labels(labels)
        },
    decreases buf.len() - pos,
{
    if 0 <= pos < buf.len() && 0 < buf[pos] < 64 && pos + 1 + buf[pos] <= buf.len() {
        let next = pos + 1 + buf[pos];
        read_name_is_wire(buf, next);
        if let NameRead::Name { labels, end } = read_name(buf, next) {
            let first = buf.subrange(pos + 1, next);
            let all = seq![first] + labels;
            assert(all[0] == first);
            assert(all.skip(1) == labels);
            assert(seq![first.len() as u8] + first + wire_name(labels) == buf.subrange(pos, end));
            assert forall|i: int| 0 <= i < all.len() implies 0 < (#[trigger] all[i]).len() < 64 by {
                if i > 0 {
                    assert(all[i] == labels[i - 1]);
                }
            }
        }
    } else if 0 <= pos < buf.len() && buf[pos] == 0 {
        assert(buf.subrange(pos, pos + 1) == seq![0u8]);
    }
}

/// What stands on the wire is what is read.
proof fn wire_is_read(buf: Seq<u8>, pos: int, labels: Seq<Seq<u8>>)
    requires
        valid_labels(labels),
        0 <= pos,
        pos + wire_name(labels).len() <= buf.len(),
        buf.subrange(pos, pos + wire_name(labels).len()) == wire_name(labels),
    ensures
        read_name(buf, pos) == (NameRead::Name { labels, end: pos + wire_name(labels).len() }),
    decreases labels.len(),
{
    let wire = wire_name(labels);
    let sub = buf.subrange(pos, pos + wire.len());
    assert(sub[0] == buf[pos]);
    if labels.len() == 0 {
        assert(labels == Seq::<Seq<u8>>::empty());
    } else {
        let first = labels[0];
        let rest = wire_name(labels.skip(1));
        let next = pos + 1 + first.len();
        assert(buf[pos] == first.len() as u8);
        assert forall|i: int| 0 <= i < labels.skip(1).len() implies 0 < (
        #[trigger] labels.skip(1)[i]).len() < 64 by {
            assert(labels.skip(1)[i] == labels[i + 1]);
        }
        assert(buf.subrange(next, next + rest.len()) == rest) by {
            assert forall|i: int| 0 <= i < rest.len() implies buf[next + i] == rest[i] by {
                assert(sub[1 + first.len() + i] == wire[1 + first.len() + i]);
            }
        }
        assert(buf.subrange(pos + 1, next) == first) by {
            assert forall|i: int| 0 <= i < first.len() implies buf[pos + 1 + i] == first[i] by {
                assert(sub[1 + i] == wire[1 + i]);
            }
        }
        wire_is_read(buf, next, labels.skip(1));
        assert(seq![first] + labels.skip(1) == labels);
    }
}

/// A message that asks a question carries that question's bytes right after
/// its header.
pub proof fn query_carries_its_question(buf: Seq<u8>)
    ensures
        query_of(buf) matches Ok(q) ==> {
            let bytes = question_bytes(q.labels, q.qtype);
            &&& valid_labels(q.labels)
            &&& 12 + bytes.len() <= buf.len()
            &&& buf.subrange(12, 12 + bytes.len() as int) == bytes
        },
{
    read_name_is_wire(buf, 12);
    if let Ok(q) = query_of(buf) {
        if let NameRead::Name { labels, end } = read_name(buf, 12) {
            let bytes = question_bytes(q.labels, q.qtype);
            assert(buf.subrange(12, end) == wire_name(labels));
            assert(wire_name(labels).len() == end - 12);
            assert(bytes.len() == end - 12 + 4);
            assert forall|i: int| 0 <= i < bytes.len() implies buf[12 + i] == bytes[i] by {
                if i < end - 12 {
                    assert(buf.subrange(12, end)[i] == buf[12 + i]);
                }
            }
            assert(buf.subrange(12, 12 + bytes.len() as int) == bytes);
        }
    }
}

/// Any well-formed question is parsed back from a message that carries it
/// after a header that announces a question, whatever follows it.
pub proof fn question_parses_back(
    header: Seq<u8>,
    labels: Seq<Seq<u8>>,
    qtype: u16,
    rest: Seq<u8>,
)
    requires
        header.len() == 12,
        u16_at(header, 4) != 0,
        valid_labels(labels),
    ensures
        query_of(header + question_bytes(labels, qtype) + rest) == Ok::<Question, QueryError>(
            Question { id: u16_at(header, 0), labels, qtype },
        ),
{
    let bytes = question_bytes(labels, qtype);
    let buf = header + bytes + rest;
    let wire = wire_name(labels);
    let n = wire.len() as int;
    let end = 12 + n;
    assert(buf.subrange(12, end) == wire);
    wire_is_read(buf, 12, labels);
    assert(buf[end] == bytes[n]);
    assert(buf[end + 1] == bytes[n + 1]);
    assert(buf[end + 2] == bytes[n + 2]);
    assert(buf[end + 3] == bytes[n + 3]);
    assert(u16_at(buf, end) == qtype);
    assert(u16_at(buf, end + 2) == QCLASS_IN);
    assert(u16_at(buf, 0) == u16_at(header, 0));
    assert(u16_at(buf, 4) == u16_at(header, 4));
}

fn read_u16(buf: &[u8], i: usize) -> (n: u16)
    requires
        i + 1 < buf@.len(),
    ensures
        n == u16_at(buf@, i as int),
{
    buf[i] as u16 * 256 + buf[i + 1] as u16
}

/// Parses a DNS message down to its single question, whose name must not be
/// compressed.
pub fn parse_query(buf: &[u8]) -> (res: Result<ParsedQuery, QueryError>)
    ensures
        match query_of(buf@) {
            Ok(q) => res is Ok && res->Ok_0.represents(q),
            Err(e) => res == Err::<ParsedQuery, QueryError>(e),
        },
{
    let total: usize = buf.len();
    if total < 12 {
        return Err(QueryError::ShortMessage);
    }
    let id: u16 = read_u16(buf, 0);
    let qdcount: u16 = read_u16(buf, 4);
    if qdcount == 0 {
        return Err(QueryError::NoQuestions);
    }
    let mut pos: usize = 12;
    let mut names: Vec<String> = Vec::new();
    let ghost mut labels: Seq<Seq<u8>> = Seq::empty();
    let ghost lossy = |l: Seq<u8>| text::lossy_text(l);
    assert(read_name(buf@, 12).after(labels) == read_name(buf@, 12)) by {
        if let NameRead::Name { labels: l, end } = read_name(buf@, 12) {
            assert(Seq::<Seq<u8>>::empty() + l == l);
        }
    }
    assert(text::texts(names@) == labels.map_values(lossy));
    loop
        invariant_except_break
            read_name(buf@, 12) == read_name(buf@, pos as int).after(labels),
        invariant
            total == buf@.len(),
            12 <= pos <= total,
            u16_at(buf@, 4) != 0,
            lossy == (|l: Seq<u8>| text::lossy_text(l)),
            text::texts(names@) == labels.map_values(lossy),
        ensures
            read_name(buf@, 12) == (NameRead::Name { labels, end: pos as int }),
        decreases total - pos,
    {
        if pos >= total {
            return Err(QueryError::TruncatedName);
        }
        let len: usize = buf[pos] as usize;
        if len == 0 {
            assert(labels + Seq::<Seq<u8>>::empty() == labels);
            pos = pos + 1;
            break;
        }
        if len >= 64 {
            return Err(QueryError::CompressedName);
        }
        if len > total - (pos + 1) {
            return Err(QueryError::TruncatedLabel);
        }
        let label = vstd::slice::slice_subrange(buf, pos + 1, pos + 1 + len);
        let name = text::lossy(label);
        proof {
            let next = pos + 1 + len;
            let read = read_name(buf@, next as int);
            if let NameRead::Name { labels: l, end } = read {
                assert(labels + (seq![label@] + l) == labels.push(label@) + l);
            }
            assert(labels.push(label@).map_values(lossy) == labels.map_values(lossy).push(name@));
            assert(text::texts(names@.push(name)) == text::texts(names@).push(name@));
            labels = labels.push(label@);
        }
        names.push(name);
        pos = pos + 1 + len;
    }
    let qname = text::join(&names, ".");
    if total - pos < 4 {
        return Err(QueryError::TruncatedType);
    }
    let qtype: u16 = read_u16(buf, pos);
    let qclass: u16 = read_u16(buf, pos + 2);
    if qclass != QCLASS_IN {
        return Err(QueryError::UnsupportedClass(qclass));
    }
    let question_raw = vstd::slice::slice_to_vec(vstd::slice::slice_subrange(buf, 12, pos + 4));
    proof {
        query_carries_its_question(buf@);
        let bytes = question_bytes(labels, qtype);
        read_name_is_wire(buf@, 12);
        assert(buf@.subrange(12, pos as int) == wire_name(labels));
        assert(12 + bytes.len() == pos + 4);
    }
    Ok(ParsedQuery { id, question_raw, qname, qtype })
}


// ---------------------------------------------------------------------------
// Replies.
// ---------------------------------------------------------------------------
/// An address record: a pointer to the question's name, type, class, time to
/// live, and the address.
pub open spec fn record_bytes(qtype: u16, ip: IpAddress) -> Seq<u8> {
    seq![0xC0u8, 0x0Cu8] + be16(qtype as nat) + be16(QCLASS_IN as nat) + be32(
        ANSWER_TTL_SECS as nat,
    ) + be16(ip.octets().len()) + ip.octets()
}

/// The address records for `ips`, in order.
pub open spec fn records_bytes(qtype: u16, ips: Seq<IpAddress>) -> Seq<u8>
    decreases ips.len(),
{
    if ips.len() == 0 {
        Seq::empty()
    } else {
        records_bytes(qtype, ips.drop_last()) + record_bytes(qtype, ips.last())
    }
}

/// The header of a reply: a response to a recursive query, with one question
/// and `count` answers.
pub open spec fn reply_header(id: u16, rcode: u8, count: nat) -> Seq<u8> {
    be16(id as nat) + seq![0x81u8, (0x80 + rcode % 16) as u8] + be16(1) + be16(count) + be16(0)
        + be16(0)
}

/// A reply to one question.
pub open spec fn reply_bytes(
    id: u16,
    question: Seq<u8>,
    qtype: u16,
    rcode: u8,
    ips: Seq<IpAddress>,
) -> Seq<u8> {
    reply_header(id, rcode, ips.len() % 65536) + question + records_bytes(qtype, ips)
}

fn put16(out: &mut Vec<u8>, n: u16)
    ensures
        final(out)@ == old(out)@ + be16(n as nat),
{
    out.push((n / 256) as u8);
    out.push((n % 256) as u8);
    assert(out@ == old(out)@ + be16(n as nat));
}

fn put_bytes(out: &mut Vec<u8>, bytes: &[u8])
    ensures
        final(out)@ == old(out)@ + bytes@,
{
    let ghost before = out@;
    let mut i: usize = 0;
    while i < bytes.len()
        invariant
            i <= bytes@.len(),
            out@ == before + bytes@.take(i as int),
        decreases bytes@.len() - i,
    {
        out.push(bytes[i]);
        assert(bytes@.take(i + 1) == bytes@.take(i as int).push(bytes@[i as int]));
        i = i + 1;
    }
    assert(bytes@.take(bytes@.len() as int) == bytes@);
}

fn put_record(out: &mut Vec<u8>, qtype: u16, ip: &IpAddress)
    ensures
        final(out)@ == old(out)@ + record_bytes(qtype, *ip),
{
    let ghost before = out@;
    out.push(0xC0);
    out.push(0x0C);
    put16(out, qtype);
    put16(out, QCLASS_IN);
    put16(out, (ANSWER_TTL_SECS / 65536) as u16);
    put16(out, (ANSWER_TTL_SECS % 65536) as u16);
    match ip {
        IpAddress::V4(o) => {
            put16(out, 4);
            put_bytes(out, o.as_slice());
        },
        IpAddress::V6(o) => {
            put16(out, 16);
            put_bytes(out, o.as_slice());
        },
    }
    assert(out@ == before + record_bytes(qtype, *ip));
}

/// Builds a DNS response for a single question, answering with `ips` (all of
/// the address family that `qtype` asks for).
pub fn build_response(
    id: u16,
    question_raw: &[u8],
    qtype: u16,
    rcode: u8,
    ips: &Vec<IpAddress>,
) -> (out: Vec<u8>)
    ensures
        out@ == reply_bytes(id, question_raw@, qtype, rcode, ips@),
{
    let mut out: Vec<u8> = Vec::with_capacity(64);
    put16(&mut out, id);
    // QR=1 (response), Opcode=0000, AA=0, TC=0, RD=1, RA=1, Z=0, RCODE=rcode.
    out.push(0x81);
    out.push(0x80 + rcode % 16);
    put16(&mut out, 1);
    put16(&mut out, (ips.len() % 65536) as u16);
    put16(&mut out, 0);
    put16(&mut out, 0);
    assert(out@ == reply_header(id, rcode, ips@.len() % 65536));
    put_bytes(&mut out, question_raw);
    let ghost head = out@;
    let mut i: usize = 0;
    while i < ips.len()
        invariant
            i <= ips@.len(),
            out@ == head + records_bytes(qtype, ips@.take(i as int)),
        decreases ips@.len() - i,
    {
        put_record(&mut out, qtype, &ips[i]);
        assert(ips@.take(i + 1).drop_last() == ips@.take(i as int));
        i = i + 1;
    }
    assert(ips@.take(ips@.len() as int) == ips@);
    out
}

/// What to do with a request.
#[derive(Debug)]
pub enum QueryPlan {
    /// Malformed: send nothing.
    Drop(QueryError),
    /// Send this reply.
    Reply(Vec<u8>),
    /// Resolve the name, then send what `finish_query` builds.
    Resolve(ParsedQuery),
}

/// Whether address records are asked for.
pub open spec fn asks_for_address(qtype: u16) -> bool {
    qtype == QTYPE_A || qtype == QTYPE_AAAA
}

/// The reply to a question for anything but addresses: not implemented.
pub open spec fn not_implemented(q: Question) -> Seq<u8> {
    reply_bytes(
        q.id,
        question_bytes(q.labels, q.qtype),
        q.qtype,
        RCODE_NOTIMP,
        Seq::empty(),
    )
}

/// Decides what to do with a request: malformed queries are dropped, queries
/// for anything but addresses are answered as not implemented, and the rest
/// are resolved.
pub fn plan_query(request: &[u8]) -> (plan: QueryPlan)
    ensures
        match query_of(request@) {
            Err(e) => plan == QueryPlan::Drop(e),
            Ok(q) => if asks_for_address(q.qtype) {
                plan is Resolve && plan->Resolve_0.represents(q)
            } else {
                plan is Reply && plan->Reply_0@ == not_implemented(q)
            },
        },
{
    match parse_query(request) {
        Err(e) => QueryPlan::Drop(e),
        Ok(query) => {
            if query.qtype != QTYPE_A && query.qtype != QTYPE_AAAA {
                let none: Vec<IpAddress> = Vec::new();
                QueryPlan::Reply(
                    build_response(
                        query.id,
                        query.question_raw.as_slice(),
                        query.qtype,
                        RCODE_NOTIMP,
                        &none,
                    ),
                )
            } else {
                QueryPlan::Resolve(query)
            }
        },
    }
}

/// The addresses of the family that `qtype` asks for, in order.
pub open spec fn wanted(qtype: u16, ips: Seq<IpAddress>) -> Seq<IpAddress> {
    ips.filter(|ip: IpAddress| (ip is V6) == (qtype == QTYPE_AAAA))
}

/// The reply to a question once its name was resolved (`None`: resolving
/// failed).
pub open spec fn resolved_reply(
    id: u16,
    question: Seq<u8>,
    qtype: u16,
    resolved: Option<Seq<IpAddress>>,
) -> Seq<u8> {
    match resolved {
        None => reply_bytes(id, question, qtype, RCODE_SERVFAIL, Seq::empty()),
        Some(ips) => {
            let ips = wanted(qtype, ips);
            if ips.len() == 0 {
                reply_bytes(id, question, qtype, RCODE_NXDOMAIN, Seq::empty())
            } else {
                reply_bytes(id, question, qtype, RCODE_NOERROR, ips)
            }
        },
    }
}

fn select_wanted(qtype: u16, ips: &Vec<IpAddress>) -> (out: Vec<IpAddress>)
    ensures
        out@ == wanted(qtype, ips@),
{
    let ghost keep = |ip: IpAddress| (ip is V6) == (qtype == QTYPE_AAAA);
    let wanted_v6: bool = qtype == QTYPE_AAAA;
    let mut out: Vec<IpAddress> = Vec::new();
    let mut i: usize = 0;
    proof {
        reveal(Seq::filter);
        assert(ips@.take(0).filter(keep) == Seq::<IpAddress>::empty());
    }
    while i < ips.len()
        invariant
            i <= ips@.len(),
            wanted_v6 == (qtype == QTYPE_AAAA),
            keep == (|ip: IpAddress| (ip is V6) == (qtype == QTYPE_AAAA)),
            out@ == ips@.take(i as int).filter(keep),
        decreases ips@.len() - i,
    {
        let ip = ips[i];
        proof {
            reveal(Seq::filter);
            assert(ips@.take(i + 1).drop_last() == ips@.take(i as int));
            assert(ips@.take(i + 1).last() == ip);
        }
        if ip.is_ipv6() == wanted_v6 {
            out.push(ip);
        }
        i = i + 1;
    }
    assert(ips@.take(ips@.len() as int) == ips@);
    out
}

/// Builds the reply to `query` from what resolving its name gave: a server
/// failure if that failed (`None`), the addresses of the family asked for, or
/// "no such name" if there are none.
pub fn finish_query(query: &ParsedQuery, resolved: Option<&Vec<IpAddress>>) -> (out: Vec<u8>)
    ensures
        out@ == resolved_reply(
            query.id,
            query.question_raw@,
            query.qtype,
            match resolved {
                Some(ips) => Some(ips@),
                None => None,
            },
        ),
{
    let none: Vec<IpAddress> = Vec::new();
    let question = query.question_raw.as_slice();
    match resolved {
        None => build_response(query.id, question, query.qtype, RCODE_SERVFAIL, &none),
        Some(ips) => {
            let filtered = select_wanted(query.qtype, ips);
            if filtered.len() == 0 {
                build_response(query.id, question, query.qtype, RCODE_NXDOMAIN, &none)
            } else {
                build_response(query.id, question, query.qtype, RCODE_NOERROR, &filtered)
            }
        },
    }
}

/// Every reply to a question carries the question's identifier and asks the
/// very same question again, so that it parses back to it.
pub proof fn reply_echoes_question(
    id: u16,
    labels: Seq<Seq<u8>>,
    qtype: u16,
    rcode: u8,
    ips: Seq<IpAddress>,
)
    requires
        valid_labels(labels),
    ensures
        query_of(reply_bytes(id, question_bytes(labels, qtype), qtype, rcode, ips)) == Ok::<
            Question,
            QueryError,
        >(Question { id, labels, qtype }),
{
    let header = reply_header(id, rcode, ips.len() % 65536);
    assert(header.len() == 12);
    assert(header[0] == be16(id as nat)[0]);
    assert(header[1] == be16(id as nat)[1]);
    assert(header[4] == be16(1)[0]);
    assert(header[5] == be16(1)[1]);
    question_parses_back(header, labels, qtype, records_bytes(qtype, ips));
}

/// The reply to a resolved question answers with addresses of the asked family
/// only, and with every such address.
pub proof fn answers_have_asked_family(qtype: u16, ips: Seq<IpAddress>)
    ensures
        forall|ip: IpAddress|
            wanted(qtype, ips).contains(ip) <==> ips.contains(ip) && (ip is V6) == (qtype
                == QTYPE_AAAA),
{
    let keep = |ip: IpAddress| (ip is V6) == (qtype == QTYPE_AAAA);
    assert forall|ip: IpAddress|
        wanted(qtype, ips).contains(ip) <==> ips.contains(ip) && (ip is V6) == (qtype
            == QTYPE_AAAA) by {
        if ips.contains(ip) && keep(ip) {
            let i = choose|i: int| 0 <= i < ips.len() && ips[i] == ip;
            ips.lemma_filter_contains(keep, i);
        }
        if ips.filter(keep).contains(ip) {
            let i = choose|i: int| 0 <= i < ips.filter(keep).len() && ips.filter(keep)[i] == ip;
            ips.lemma_filter_pred(keep, i);
            ips.lemma_filter_contains_rev(keep, ip);
        }
    }
}

// ---------------------------------------------------------------------------
// Starting and stopping.
// ---------------------------------------------------------------------------
/// Whether the resolver runs, and where.
#[derive(Debug)]
pub struct DnsShimController {
    running: Option<String>,
}

/// Where the resolver listens once it was asked to run on `addr`.
pub open spec fn after_start(running: Option<Seq<char>>, addr: Seq<char>) -> Option<Seq<char>> {
    match running {
        Some(a) => Some(a),
        None => Some(addr),
    }
}

impl DnsShimController {
    /// Where the resolver listens, if it runs.
    pub closed spec fn address(self) -> Option<Seq<char>> {
        text::opt_text(self.running)
    }

    /// It does not run yet.
    pub fn new() -> (c: Self)
        ensures
            c.address() is None,
    {
        DnsShimController { running: None }
    }

    /// Where the resolver listens, if it runs.
    pub fn bound_addr(&self) -> (addr: Option<String>)
        ensures
            text::opt_text(addr) == self.address(),
    {
        match &self.running {
            Some(a) => Some(a.clone()),
            None => None,
        }
    }

    /// The resolver is to run on `addr`; an error if it runs already.
    pub fn start(&mut self, addr: &str) -> (res: Result<(), String>)
        ensures
            final(self).address() == after_start(old(self).address(), addr@),
            match res {
                Ok(_) => old(self).address() is None,
                Err(e) => old(self).address() is Some && e@ == "DNS shim is already running"@,
            },
    {
        if self.running.is_some() {
            return Err("DNS shim is already running".to_owned());
        }
        self.running = Some(addr.to_owned());
        Ok(())
    }

    /// The resolver is to stop. Returns whether it ran.
    pub fn stop(&mut self) -> (ran: bool)
        ensures
            ran == (old(self).address() is Some),
            final(self).address() is None,
    {
        let ran = self.running.is_some();
        self.running = None;
        ran
    }
}

} // verus!
