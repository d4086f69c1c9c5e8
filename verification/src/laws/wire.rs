//! Messages on the wire, as the other side reads them: SOCKS5 by RFC 1928 and
//! RFC 1929, DNS by RFC 1035.
use crate::dns::{self, QueryError};
use crate::laws::texts;
use crate::net::IpAddress;
use crate::policy::{Destination, LeakPolicy, LeakViolation};
use crate::socks::{self, AuthMethod, ConnectParse, CredentialsParse, GreetingParse, RequestRead, SocksError};
use crate::text;
use vstd::prelude::*;

verus! {

// ---------------------------------------------------------------------------
// SOCKS5.
// ---------------------------------------------------------------------------
/// The reply code that a client reads from an answer to its request: version 5,
/// the code, a zero byte, and an IPv4 address and a port that are all zero.
pub open spec fn answer_code(answer: Seq<u8>) -> Option<u8> {
    if answer.len() == 10 && answer[0] == 5 && answer[2] == 0 && answer[3] == 1 && (forall|i: int|
        4 <= i < 10 ==> #[trigger] answer[i] == 0) {
        Some(answer[1])
    } else {
        None
    }
}

/// The client reads from an answer the very code that was sent.
pub proof fn answers_carry_their_code(rep: u8)
    ensures
        answer_code(socks::reply_bytes(rep)) == Some(rep),
{
}

/// A client whose connection was made reads that it succeeded (0); one whose
/// connection could not be made reads a general failure (1).
pub proof fn connections_are_answered(connected: bool)
    ensures
        answer_code(socks::reply_bytes(socks::connect_code(connected))) == Some(
            if connected {
                0u8
            } else {
                1u8
            },
        ),
{
}

/// A client that the policy refuses reads a general failure; one that it lets
/// through is connected to the host that it named.
pub proof fn refusals_are_answered(policy: LeakPolicy, dest: Destination)
    ensures
        match socks::screened(policy, dest) {
            Ok(host) => match dest {
                Destination::Host(h) => host == h@,
                Destination::Ip(ip) => policy.allows_raw_ip() && host == ip.text(),
            },
            Err((_, answer)) => dest is Ip && !policy.allows_raw_ip() && answer_code(answer)
                == Some(1u8),
        },
{
}

/// Answers with different codes differ.
pub proof fn answers_differ(a: u8, b: u8)
    requires
        socks::reply_bytes(a) == socks::reply_bytes(b),
    ensures
        a == b,
{
    answers_carry_their_code(a);
    answers_carry_their_code(b);
}

/// The numbers of the protocol are those of the RFCs.
pub proof fn socks_numbers()
    ensures
        socks::SOCKS_VERSION == 5,
        socks::AUTH_VERSION == 1,
        socks::METHOD_NO_AUTH == 0,
        socks::METHOD_USER_PASS == 2,
        socks::METHOD_NONE_ACCEPTABLE == 0xFF,
        socks::CMD_CONNECT == 1,
        socks::ATYP_IPV4 == 1,
        socks::ATYP_DOMAIN == 3,
        socks::ATYP_IPV6 == 4,
        socks::REP_SUCCESS == 0,
        socks::REP_GENERAL_FAILURE == 1,
        socks::REP_CMD_NOT_SUPPORTED == 7,
        socks::REP_ATYP_NOT_SUPPORTED == 8,
{
}

/// A client that offers methods is read as offering those methods, in order.
pub proof fn greetings_read_back(methods: Seq<u8>, r: GreetingParse)
    requires
        methods.len() < 256,
        r.reads(seq![5u8, methods.len() as u8] + methods),
    ensures
        r matches GreetingParse::Methods(m) && m@ == methods,
{
    let buf = seq![5u8, methods.len() as u8] + methods;
    assert(buf.subrange(2, 2 + methods.len() as int) == methods);
}

/// While a greeting arrives, what is asked for is the rest of its first two bytes,
/// and then the rest of it: never a byte beyond the greeting.
pub proof fn greetings_are_never_overread(methods: Seq<u8>, n: int, r: GreetingParse)
    requires
        methods.len() < 256,
        0 <= n < 2 + methods.len(),
        r.reads((seq![5u8, methods.len() as u8] + methods).take(n)),
    ensures
        r matches GreetingParse::More(k) && k == if n < 2 {
            2 - n
        } else {
            2 + methods.len() - n
        },
{
}

/// A greeting of another version is refused, with that version.
pub proof fn other_versions_are_refused(buf: Seq<u8>, r: GreetingParse)
    requires
        buf.len() >= 2,
        buf[0] != 5,
        r.reads(buf),
    ensures
        r matches GreetingParse::Refused(SocksError::Version(v)) && v == buf[0],
{
}

/// The chosen method is one that the client offers; there is none only if it
/// offers neither, and a client that offers a username is asked for it.
pub proof fn chosen_method_was_offered(methods: Seq<u8>)
    ensures
        match socks::chosen_method(methods) {
            Some(AuthMethod::UserPass) => methods.contains(2),
            Some(AuthMethod::NoAuth) => methods.contains(0) && !methods.contains(2),
            None => !methods.contains(0) && !methods.contains(2),
        },
{
}

/// A client is told the method that was chosen among those that it offered, or 255.
pub proof fn methods_are_answered(methods: Seq<u8>)
    ensures
        ({
            let answer = socks::method_reply_bytes(socks::chosen_method(methods));
            &&& answer.len() == 2
            &&& answer[0] == 5
            &&& if methods.contains(2) {
                answer[1] == 2
            } else if methods.contains(0) {
                answer[1] == 0
            } else {
                answer[1] == 255
            }
        }),
{
}

/// Connections with different usernames are isolated from each other, and those
/// without one are under `default`.
pub proof fn usernames_isolate(a: Seq<u8>, b: Seq<u8>)
    ensures
        socks::identity_of(Some(a)) == a,
        a != b ==> socks::identity_of(Some(a)) != socks::identity_of(Some(b)),
        socks::identity_of(None).map_values(|c: u8| c as char) == "default"@,
{
    default_identity_is_default();
}

/// Credentials on the wire.
pub open spec fn credentials(name: Seq<u8>, password: Seq<u8>) -> Seq<u8> {
    seq![1u8, name.len() as u8] + name + seq![password.len() as u8] + password
}

/// From credentials the username is read, whatever the password.
pub proof fn usernames_read_back(name: Seq<u8>, password: Seq<u8>, r: CredentialsParse)
    requires
        name.len() < 256,
        password.len() < 256,
        r.reads(credentials(name, password)),
    ensures
        r matches CredentialsParse::Username(u) && u@ == name,
{
    let buf = credentials(name, password);
    assert(buf[1] == name.len());
    assert(buf[2 + name.len() as int] == password.len());
    assert(buf.subrange(2, 2 + name.len() as int) == name);
}

/// While credentials arrive, what is asked for is the rest of the first two bytes,
/// then the rest up to the password's length, and then the rest: never a byte
/// beyond them.
pub proof fn credentials_are_never_overread(
    name: Seq<u8>,
    password: Seq<u8>,
    n: int,
    r: CredentialsParse,
)
    requires
        name.len() < 256,
        password.len() < 256,
        0 <= n < credentials(name, password).len(),
        r.reads(credentials(name, password).take(n)),
    ensures
        r matches CredentialsParse::More(k) && k == if n < 2 {
            2 - n
        } else if n < 3 + name.len() {
            3 + name.len() - n
        } else {
            credentials(name, password).len() - n
        },
{
    let all = credentials(name, password);
    assert(all[1] == name.len());
    assert(all[2 + name.len() as int] == password.len());
}

/// The identity of connections without authentication is the word `default`.
pub proof fn default_identity_is_default()
    ensures
        socks::default_identity().map_values(|b: u8| b as char) == "default"@,
{
    reveal_strlit("default");
    assert(socks::default_identity().map_values(|b: u8| b as char) =~= "default"@);
}

/// The port at the end of a request is read with its high byte first.
pub proof fn ports_are_big_endian(buf: Seq<u8>, i: int)
    requires
        0 <= i,
        i + 1 < buf.len(),
    ensures
        socks::port_at(buf, i) / 256 == buf[i],
        socks::port_at(buf, i) % 256 == buf[i + 1],
{
}

/// A request that is let through is connected to by the very name that the
/// client gave; the policy refuses nothing but raw addresses.
pub proof fn names_are_kept(policy: LeakPolicy, name: String)
    ensures
        policy.verdict(Destination::Host(name)) is Ok,
        socks::connect_host(Destination::Host(name)) == name@,
{
}

/// Requests as they stand on the wire: version 5, command 1, a reserved byte, and
/// then an IPv4 address behind 1, an IPv6 address behind 4, or a name behind 3 and
/// its length; at the end the port.
pub proof fn requests_on_the_wire(
    reserved: u8,
    address: Seq<u8>,
    name: Seq<char>,
    high: u8,
    low: u8,
)
    ensures
        address.len() == 4 ==> socks::request_of(
            seq![5u8, 1u8, reserved, 1u8] + address + seq![high, low],
        ) == RequestRead::Request(socks::Target::V4(address), (256 * high + low) as u16),
        address.len() == 16 ==> socks::request_of(
            seq![5u8, 1u8, reserved, 4u8] + address + seq![high, low],
        ) == RequestRead::Request(socks::Target::V6(address), (256 * high + low) as u16),
        vstd::utf8::encode_utf8(name).len() < 256 ==> socks::request_of(
            seq![5u8, 1u8, reserved, 3u8, vstd::utf8::encode_utf8(name).len() as u8]
                + vstd::utf8::encode_utf8(name) + seq![high, low],
        ) == RequestRead::Request(socks::Target::Host(name), (256 * high + low) as u16),
{
    let four = seq![5u8, 1u8, reserved, 1u8] + address + seq![high, low];
    let six = seq![5u8, 1u8, reserved, 4u8] + address + seq![high, low];
    if address.len() == 4 {
        assert(four.subrange(4, 8) =~= address);
        assert(four[8] == high && four[9] == low);
    }
    if address.len() == 16 {
        assert(six.subrange(4, 20) =~= address);
        assert(six[20] == high && six[21] == low);
    }
    let bytes = vstd::utf8::encode_utf8(name);
    if bytes.len() < 256 {
        let n = bytes.len() as int;
        let host = seq![5u8, 1u8, reserved, 3u8, n as u8] + bytes + seq![high, low];
        assert(host[4] == n);
        assert(host.subrange(5, 5 + n) =~= bytes);
        assert(host[5 + n] == high && host[6 + n] == low);
        vstd::utf8::encode_utf8_valid_utf8(name);
        vstd::utf8::encode_utf8_decode_utf8(name);
    }
}

/// While a request arrives, what is asked for is the rest of its first four bytes,
/// then for a name its length, the rest of the name, and the port; for an address
/// the rest of it all.
pub proof fn requests_are_asked_for_piece_by_piece(buf: Seq<u8>)
    requires
        socks::request_of(buf) is More,
    ensures
        socks::request_of(buf) == RequestRead::More(
            if buf.len() < 4 {
                4 - buf.len()
            } else if buf[3] == 1 {
                10 - buf.len()
            } else if buf[3] == 4 {
                22 - buf.len()
            } else if buf.len() < 5 {
                1
            } else if buf.len() < 5 + buf[4] {
                5 + buf[4] - buf.len()
            } else {
                7 + buf[4] - buf.len()
            },
        ),
        buf.len() >= 4 ==> buf[0] == 5 && buf[1] == 1,
{
}

/// What is made of a request is what was read: the name, the octets, the port.
pub proof fn requests_are_handed_on(dest: Destination, port: u16)
    ensures
        (ConnectParse::Request { dest, port }).read() matches RequestRead::Request(t, p) && p
            == port && match dest {
            Destination::Host(h) => t == socks::Target::Host(h@),
            Destination::Ip(IpAddress::V4(o)) => t == socks::Target::V4(o@),
            Destination::Ip(IpAddress::V6(o)) => t == socks::Target::V6(o@),
        },
{
}

/// A request is refused for the first thing that is wrong with it: its version,
/// without an answer; its command, with answer 7; its address type, with answer 8;
/// a name that is not UTF-8, without an answer.
pub proof fn bad_requests_are_refused(buf: Seq<u8>)
    requires
        buf.len() >= 4,
    ensures
        buf[0] != 5 ==> socks::request_of(buf) == RequestRead::Refused(
            SocksError::RequestVersion(buf[0]),
            None,
        ),
        buf[0] == 5 && buf[1] != 1 ==> socks::request_of(buf) == RequestRead::Refused(
            SocksError::Command(buf[1]),
            Some(7u8),
        ),
        buf[0] == 5 && buf[1] == 1 && buf[3] != 1 && buf[3] != 3 && buf[3] != 4
            ==> socks::request_of(buf) == RequestRead::Refused(
            SocksError::AddressType(buf[3]),
            Some(8u8),
        ),
        buf[0] == 5 && buf[1] == 1 && buf[3] == 3 && buf.len() > 4 && buf.len() >= 5 + buf[4]
            && !vstd::utf8::valid_utf8(buf.subrange(5, 5 + buf[4])) ==> socks::request_of(buf)
            == RequestRead::Refused(SocksError::HostNotUtf8, None),
        buf[0] == 5 && buf[1] == 1 && (buf[3] == 1 || buf[3] == 4) ==> !(socks::request_of(
            buf,
        ) is Refused),
{
}

/// A request is read from its own bytes: nothing that follows it changes what was
/// read or why it was refused, and the reserved byte does not matter.
pub proof fn requests_end_where_they_end(buf: Seq<u8>, rest: Seq<u8>, reserved: u8)
    requires
        !(socks::request_of(buf) is More),
    ensures
        socks::request_of(buf + rest) == socks::request_of(buf),
        socks::request_of(buf.update(2, reserved)) == socks::request_of(buf),
{
    let longer = buf + rest;
    let other = buf.update(2, reserved);
    assert(longer.subrange(4, 8) == buf.subrange(4, 8) || buf.len() < 8);
    assert(longer.subrange(4, 20) == buf.subrange(4, 20) || buf.len() < 20);
    assert(other.subrange(4, 8) == buf.subrange(4, 8) || buf.len() < 8);
    assert(other.subrange(4, 20) == buf.subrange(4, 20) || buf.len() < 20);
    if buf.len() >= 5 {
        let end = 5 + buf[4];
        assert(longer.subrange(5, end) == buf.subrange(5, end) || buf.len() < end);
        assert(other.subrange(5, end) == buf.subrange(5, end) || buf.len() < end);
    }
}

/// Credentials of another version are refused, with that version.
pub proof fn other_auth_versions_are_refused(buf: Seq<u8>, r: CredentialsParse)
    requires
        buf.len() >= 2,
        buf[0] != 1,
        r.reads(buf),
    ensures
        r matches CredentialsParse::Refused(SocksError::AuthVersion(v)) && v == buf[0],
{
}

/// The messages on what a session ends with name the number that was sent.
pub proof fn socks_errors_read_back(n: u8)
    ensures
        SocksError::NoAcceptableMethod.text() == "client offered no acceptable auth method"@,
        SocksError::HostNotUtf8.text() == "domain name was not valid UTF-8"@,
        texts::between(SocksError::Version(n).text(), "unsupported SOCKS version "@, seq![]) matches Some(
            v,
        ) && texts::writes(v, n as int),
        texts::between(SocksError::AuthVersion(n).text(), "unsupported auth version "@, seq![]) matches Some(
            v,
        ) && texts::writes(v, n as int),
        texts::between(
            SocksError::RequestVersion(n).text(),
            "unsupported SOCKS version "@,
            " in request"@,
        ) matches Some(v) && texts::writes(v, n as int),
        texts::between(
            SocksError::Command(n).text(),
            "only CONNECT is supported (got cmd "@,
            ")"@,
        ) matches Some(v) && texts::writes(v, n as int),
        texts::between(SocksError::AddressType(n).text(), "unsupported address type "@, seq![]) matches Some(
            v,
        ) && texts::writes(v, n as int),
{
    let d = text::decimal_text(n as nat);
    texts::decimals_read_back(n as nat);
    texts::between_is_found("unsupported SOCKS version "@, d, seq![]);
    texts::between_is_found("unsupported auth version "@, d, seq![]);
    texts::between_is_found("unsupported SOCKS version "@, d, " in request"@);
    texts::between_is_found("only CONNECT is supported (got cmd "@, d, ")"@);
    texts::between_is_found("unsupported address type "@, d, seq![]);
    assert("unsupported SOCKS version "@ + d + seq![] =~= "unsupported SOCKS version "@ + d);
    assert("unsupported auth version "@ + d + seq![] =~= "unsupported auth version "@ + d);
    assert("unsupported address type "@ + d + seq![] =~= "unsupported address type "@ + d);
}

/// A raw address is refused exactly if the policy does not allow any; the violation
/// is about that address, and its message begins with it. One that is allowed is
/// connected to by its text.
pub proof fn raw_addresses_are_screened(policy: LeakPolicy, ip: IpAddress)
    ensures
        policy.verdict(Destination::Ip(ip)) is Ok <==> policy.allows_raw_ip(),
        policy.verdict(Destination::Ip(ip)) matches Err(v) ==> v == LeakViolation::RawIpRejected(ip),
        texts::begins_with(
            LeakViolation::RawIpRejected(ip).text(),
            "raw IP address "@ + ip.text(),
        ),
        socks::connect_host(Destination::Ip(ip)) == ip.text(),
{
    let head = "raw IP address "@ + ip.text();
    let message = LeakViolation::RawIpRejected(ip).text();
    assert(message.take(head.len() as int) =~= head);
}

// ---------------------------------------------------------------------------
// DNS.
// ---------------------------------------------------------------------------
/// The 16-bit number at a position.
pub open spec fn number16(msg: Seq<u8>, i: int) -> int {
    256 * msg[i] + msg[i + 1]
}

/// The 32-bit number at a position.
pub open spec fn number32(msg: Seq<u8>, i: int) -> int {
    65536 * number16(msg, i) + number16(msg, i + 2)
}

/// The labels of the name at a position, with at most `hops` compression
/// pointers followed.
pub open spec fn labels_at(msg: Seq<u8>, pos: int, hops: nat) -> Option<Seq<Seq<u8>>>
    decreases hops, msg.len() - pos,
{
    if !(0 <= pos < msg.len()) {
        None
    } else if msg[pos] == 0 {
        Some(seq![])
    } else if msg[pos] >= 192 {
        if pos + 1 < msg.len() && hops > 0 {
            labels_at(msg, 256 * (msg[pos] - 192) + msg[pos + 1], (hops - 1) as nat)
        } else {
            None
        }
    } else if msg[pos] >= 64 || pos + 1 + msg[pos] > msg.len() {
        None
    } else {
        match labels_at(msg, pos + 1 + msg[pos], hops) {
            Some(rest) => Some(seq![msg.subrange(pos + 1, pos + 1 + msg[pos])] + rest),
            None => None,
        }
    }
}

/// The position behind the name at a position.
pub open spec fn name_end(msg: Seq<u8>, pos: int) -> int
    decreases msg.len() - pos,
{
    if !(0 <= pos < msg.len()) || msg[pos] == 0 {
        pos + 1
    } else if msg[pos] >= 192 {
        pos + 2
    } else if pos + 1 + msg[pos] >= msg.len() {
        msg.len() as int
    } else {
        name_end(msg, pos + 1 + msg[pos])
    }
}

/// A resource record.
pub struct Record {
    /// The labels of the owner's name.
    pub owner: Option<Seq<Seq<u8>>>,
    /// The type.
    pub rtype: int,
    /// The class.
    pub class: int,
    /// The time to live.
    pub ttl: int,
    /// The data.
    pub data: Seq<u8>,
}

/// The record at a position.
pub open spec fn record_at(msg: Seq<u8>, pos: int) -> Record {
    let p = name_end(msg, pos);
    Record {
        owner: labels_at(msg, pos, 4),
        rtype: number16(msg, p),
        class: number16(msg, p + 2),
        ttl: number32(msg, p + 4),
        data: msg.subrange(p + 10, p + 10 + number16(msg, p + 8)),
    }
}

/// The position behind the record at a position.
pub open spec fn record_end(msg: Seq<u8>, pos: int) -> int {
    let p = name_end(msg, pos);
    p + 10 + number16(msg, p + 8)
}

/// The position of answer `i` of a message with one question.
pub open spec fn answer_position(msg: Seq<u8>, i: int) -> int
    decreases i,
{
    if i <= 0 {
        name_end(msg, 12) + 4
    } else {
        record_end(msg, answer_position(msg, i - 1))
    }
}

/// The header of a message.
pub struct Header {
    /// The identifier.
    pub id: int,
    /// Whether it is a response.
    pub response: bool,
    /// The kind of query.
    pub opcode: int,
    /// Whether the answer is authoritative.
    pub authoritative: bool,
    /// Whether the message was cut.
    pub truncated: bool,
    /// Whether recursion was asked for.
    pub recursion_desired: bool,
    /// Whether recursion is available.
    pub recursion_available: bool,
    /// Reserved bits.
    pub reserved: int,
    /// The response code.
    pub rcode: int,
    /// How many questions there are.
    pub questions: int,
    /// How many answers there are.
    pub answers: int,
    /// How many authority records there are.
    pub authorities: int,
    /// How many additional records there are.
    pub additionals: int,
}

/// The header of a message.
pub open spec fn header_of(msg: Seq<u8>) -> Header {
    let a = msg[2] as int;
    let b = msg[3] as int;
    Header {
        id: number16(msg, 0),
        response: a / 128 == 1,
        opcode: (a / 8) % 16,
        authoritative: (a / 4) % 2 == 1,
        truncated: (a / 2) % 2 == 1,
        recursion_desired: a % 2 == 1,
        recursion_available: b / 128 == 1,
        reserved: (b / 16) % 8,
        rcode: b % 16,
        questions: number16(msg, 4),
        answers: number16(msg, 6),
        authorities: number16(msg, 8),
        additionals: number16(msg, 10),
    }
}

/// The header of a reply: that of a response to a recursive query with the same
/// identifier, one question and as many answers as there are addresses.
pub proof fn reply_headers_read_back(
    id: u16,
    question: Seq<u8>,
    qtype: u16,
    rcode: u8,
    ips: Seq<IpAddress>,
)
    requires
        ips.len() < 65536,
        rcode < 16,
    ensures
        header_of(dns::reply_bytes(id, question, qtype, rcode, ips)) == (Header {
            id: id as int,
            response: true,
            opcode: 0,
            authoritative: false,
            truncated: false,
            recursion_desired: true,
            recursion_available: true,
            reserved: 0,
            rcode: rcode as int,
            questions: 1,
            answers: ips.len() as int,
            authorities: 0,
            additionals: 0,
        }),
{
    let msg = dns::reply_bytes(id, question, qtype, rcode, ips);
    let head = dns::reply_header(id, rcode, ips.len() % 65536);
    assert(head.len() == 12);
    assert(forall|i: int| 0 <= i < 12 ==> msg[i] == head[i]);
    assert(head[0] == dns::be16(id as nat)[0] && head[1] == dns::be16(id as nat)[1]);
    assert(head[2] == 0x81 && head[3] == 0x80 + rcode);
    assert(head[4] == 0 && head[5] == 1);
    assert(head[6] == dns::be16(ips.len())[0] && head[7] == dns::be16(ips.len())[1]);
    assert(head[8] == 0 && head[9] == 0 && head[10] == 0 && head[11] == 0);
}

/// Whether each label has one to sixty-three bytes.
pub open spec fn sized(labels: Seq<Seq<u8>>) -> bool {
    forall|i: int| 0 <= i < labels.len() ==> 1 <= (#[trigger] labels[i]).len() <= 63
}

proof fn wire_labels(msg: Seq<u8>, pos: int, labels: Seq<Seq<u8>>, hops: nat)
    requires
        sized(labels),
        0 <= pos,
        pos + dns::wire_name(labels).len() <= msg.len(),
        msg.subrange(pos, pos + dns::wire_name(labels).len()) == dns::wire_name(labels),
    ensures
        labels_at(msg, pos, hops) == Some(labels),
        name_end(msg, pos) == pos + dns::wire_name(labels).len(),
    decreases labels.len(),
{
    let wire = dns::wire_name(labels);
    let sub = msg.subrange(pos, pos + wire.len());
    assert(sub[0] == msg[pos]);
    if labels.len() == 0 {
        assert(labels == Seq::<Seq<u8>>::empty());
    } else {
        let first = labels[0];
        let rest = dns::wire_name(labels.skip(1));
        let next = pos + 1 + first.len();
        assert(msg[pos] == first.len() as u8);
        assert forall|i: int| 0 <= i < labels.skip(1).len() implies 1 <= (
        #[trigger] labels.skip(1)[i]).len() <= 63 by {
            assert(labels.skip(1)[i] == labels[i + 1]);
        }
        assert(msg.subrange(next, next + rest.len()) == rest) by {
            assert forall|i: int| 0 <= i < rest.len() implies msg[next + i] == rest[i] by {
                assert(sub[1 + first.len() + i] == wire[1 + first.len() + i]);
            }
        }
        assert(msg.subrange(pos + 1, next) == first) by {
            assert forall|i: int| 0 <= i < first.len() implies msg[pos + 1 + i] == first[i] by {
                assert(sub[1 + i] == wire[1 + i]);
            }
        }
        wire_labels(msg, next, labels.skip(1), hops);
        assert(seq![first] + labels.skip(1) == labels);
    }
}

/// Where the record of address `i` stands among the records.
proof fn records_in_place(qtype: u16, ips: Seq<IpAddress>, i: int)
    requires
        0 <= i < ips.len(),
    ensures
        ({
            let all = dns::records_bytes(qtype, ips);
            let from = dns::records_bytes(qtype, ips.take(i)).len() as int;
            let to = dns::records_bytes(qtype, ips.take(i + 1)).len() as int;
            &&& from <= to <= all.len()
            &&& all.subrange(from, to) == dns::record_bytes(qtype, ips[i])
        }),
    decreases ips.len(),
{
    let front = ips.drop_last();
    let all = dns::records_bytes(qtype, ips);
    assert(ips.take(i + 1).drop_last() == ips.take(i));
    assert(ips.take(i + 1).last() == ips[i]);
    if i == ips.len() - 1 {
        assert(ips.take(i) == front);
        assert(ips.take(i + 1) == ips);
        let from = dns::records_bytes(qtype, front).len() as int;
        assert(all.subrange(from, all.len() as int) == dns::record_bytes(qtype, ips[i]));
    } else {
        records_in_place(qtype, front, i);
        assert(front.take(i) == ips.take(i));
        assert(front.take(i + 1) == ips.take(i + 1));
        assert(front[i] == ips[i]);
        let from = dns::records_bytes(qtype, ips.take(i)).len() as int;
        let to = dns::records_bytes(qtype, ips.take(i + 1)).len() as int;
        assert(all.subrange(from, to) == dns::records_bytes(qtype, front).subrange(from, to));
    }
}

/// Reads one address record, given where it stands.
proof fn record_reads_back(
    msg: Seq<u8>,
    pos: int,
    labels: Seq<Seq<u8>>,
    qtype: u16,
    ip: IpAddress,
)
    requires
        sized(labels),
        12 + dns::wire_name(labels).len() <= msg.len(),
        msg.subrange(12, 12 + dns::wire_name(labels).len() as int) == dns::wire_name(labels),
        12 <= pos,
        pos + dns::record_bytes(qtype, ip).len() <= msg.len(),
        msg.subrange(pos, pos + dns::record_bytes(qtype, ip).len()) == dns::record_bytes(qtype, ip),
    ensures
        record_at(msg, pos) == (Record {
            owner: Some(labels),
            rtype: qtype as int,
            class: 1,
            ttl: 60,
            data: ip.octets(),
        }),
        record_end(msg, pos) == pos + dns::record_bytes(qtype, ip).len(),
{
    let rec = dns::record_bytes(qtype, ip);
    let n = ip.octets().len() as int;
    assert(rec.len() == 12 + n);
    let sub = msg.subrange(pos, pos + rec.len());
    assert forall|i: int| 0 <= i < rec.len() implies msg[pos + i] == rec[i] by {
        assert(sub[i] == msg[pos + i]);
    }
    assert(rec[0] == 0xC0 && rec[1] == 0x0C);
    assert(msg[pos] == 0xC0 && msg[pos + 1] == 0x0C);
    wire_labels(msg, 12, labels, 3);
    assert(labels_at(msg, pos, 4) == labels_at(msg, 12, 3));
    assert(name_end(msg, pos) == pos + 2);
    assert(rec[2] == dns::be16(qtype as nat)[0] && rec[3] == dns::be16(qtype as nat)[1]);
    assert(rec[4] == 0 && rec[5] == 1);
    assert(rec[6] == 0 && rec[7] == 0 && rec[8] == 0 && rec[9] == 60);
    assert(rec[10] == 0 && rec[11] == n);
    assert(msg[pos + 2] == rec[2] && msg[pos + 3] == rec[3]);
    assert(msg[pos + 4] == rec[4] && msg[pos + 5] == rec[5]);
    assert(msg[pos + 6] == rec[6] && msg[pos + 7] == rec[7]);
    assert(msg[pos + 8] == rec[8] && msg[pos + 9] == rec[9]);
    assert(msg[pos + 10] == rec[10] && msg[pos + 11] == rec[11]);
    assert(msg.subrange(pos + 12, pos + 12 + n) == ip.octets()) by {
        assert forall|i: int| 0 <= i < n implies msg[pos + 12 + i] == ip.octets()[i] by {
            assert(msg[pos + (12 + i)] == rec[12 + i]);
        }
    }
}

/// Reading the answers of a reply gives one record for each address, in order:
/// owned by the name that was asked for, of the type that was asked for, of the
/// Internet class, to be kept for a minute, with the address as its data. Behind
/// the last one the reply ends.
pub proof fn answers_read_back(
    id: u16,
    labels: Seq<Seq<u8>>,
    qtype: u16,
    rcode: u8,
    ips: Seq<IpAddress>,
    i: int,
)
    requires
        sized(labels),
        0 <= i <= ips.len(),
    ensures
        ({
            let msg = dns::reply_bytes(id, dns::question_bytes(labels, qtype), qtype, rcode, ips);
            let pos = answer_position(msg, i);
            if i < ips.len() {
                record_at(msg, pos) == (Record {
                    owner: Some(labels),
                    rtype: qtype as int,
                    class: 1,
                    ttl: 60,
                    data: ips[i].octets(),
                })
            } else {
                pos == msg.len()
            }
        }),
{
    answers_stand(id, labels, qtype, rcode, ips, i);
}

/// Where the answers of a reply stand, and what they say.
#[verifier::rlimit(60)]
#[verifier::spinoff_prover]
proof fn answers_stand(
    id: u16,
    labels: Seq<Seq<u8>>,
    qtype: u16,
    rcode: u8,
    ips: Seq<IpAddress>,
    i: int,
)
    requires
        sized(labels),
        0 <= i <= ips.len(),
    ensures
        ({
            let question = dns::question_bytes(labels, qtype);
            let msg = dns::reply_bytes(id, question, qtype, rcode, ips);
            let pos = answer_position(msg, i);
            &&& pos == 12 + question.len() + dns::records_bytes(qtype, ips.take(i)).len()
            &&& i < ips.len() ==> record_at(msg, pos) == (Record {
                owner: Some(labels),
                rtype: qtype as int,
                class: 1,
                ttl: 60,
                data: ips[i].octets(),
            })
            &&& i < ips.len() ==> record_end(msg, pos) == 12 + question.len()
                + dns::records_bytes(qtype, ips.take(i + 1)).len()
            &&& i == ips.len() ==> pos == msg.len()
        }),
    decreases i,
{
    let question = dns::question_bytes(labels, qtype);
    let head = dns::reply_header(id, rcode, ips.len() % 65536);
    let records = dns::records_bytes(qtype, ips);
    let msg = dns::reply_bytes(id, question, qtype, rcode, ips);
    let wire = dns::wire_name(labels);
    assert(head.len() == 12);
    assert(question.len() == wire.len() + 4);
    assert(msg.subrange(12, 12 + wire.len() as int) == wire);
    let start = 12 + question.len() as int;
    assert(msg.skip(start) == records);
    if i == 0 {
        wire_labels(msg, 12, labels, 4);
        assert(ips.take(0).len() == 0);
        assert(dns::records_bytes(qtype, ips.take(0)).len() == 0);
    } else {
        answers_stand(id, labels, qtype, rcode, ips, i - 1);
    }
    let pos = answer_position(msg, i);
    let from = dns::records_bytes(qtype, ips.take(i)).len() as int;
    assert(pos == start + from);
    if i < ips.len() {
        records_in_place(qtype, ips, i);
        let rec = dns::record_bytes(qtype, ips[i]);
        let to = dns::records_bytes(qtype, ips.take(i + 1)).len() as int;
        assert(records.subrange(from, to).len() == rec.len());
        assert(msg.subrange(pos, pos + rec.len()) == rec) by {
            assert forall|k: int| 0 <= k < rec.len() implies msg[pos + k] == rec[k] by {
                assert(records.subrange(from, to)[k] == records[from + k]);
                assert(msg.skip(start)[from + k] == msg[start + from + k]);
            }
        }
        record_reads_back(msg, pos, labels, qtype, ips[i]);
    } else {
        assert(ips.take(i) == ips);
    }
}

/// The reply to a resolved question: the addresses of the asked family (IPv6
/// for type 28, else IPv4) in the order in which they were resolved, with code
/// 0; code 3 without answers if there are none; code 2 without answers if
/// resolving failed.
pub proof fn resolved_replies_read_back(
    id: u16,
    question: Seq<u8>,
    qtype: u16,
    resolved: Option<Seq<IpAddress>>,
)
    requires
        resolved matches Some(ips) ==> ips.len() < 65536,
    ensures
        ({
            let msg = dns::resolved_reply(id, question, qtype, resolved);
            let header = header_of(msg);
            match resolved {
                None => header.rcode == 2 && header.answers == 0,
                Some(ips) => {
                    let found = ips.filter(|ip: IpAddress| (ip is V6) == (qtype == 28));
                    &&& header.answers == found.len()
                    &&& header.rcode == if found.len() > 0 {
                        0int
                    } else {
                        3
                    }
                    &&& msg == dns::reply_bytes(id, question, qtype, header.rcode as u8, found)
                },
            }
        }),
{
    match resolved {
        None => {
            reply_headers_read_back(id, question, qtype, 2, Seq::empty());
        },
        Some(ips) => {
            let keep = |ip: IpAddress| (ip is V6) == (qtype == 28);
            let found = ips.filter(keep);
            assert(dns::wanted(qtype, ips) == found);
            ips.lemma_filter_len(keep);
            if found.len() == 0 {
                assert(found == Seq::<IpAddress>::empty());
                reply_headers_read_back(id, question, qtype, 3, Seq::empty());
            } else {
                reply_headers_read_back(id, question, qtype, 0, found);
            }
        },
    }
}

/// The text of a name of two or more labels is the first label, a dot, and the
/// text of the others; that of one label is the label.
pub proof fn names_are_dotted(labels: Seq<Seq<u8>>)
    ensures
        labels.len() == 0 ==> dns::name_text(labels).len() == 0,
        labels.len() == 1 ==> dns::name_text(labels) == text::lossy_text(labels[0]),
        labels.len() > 1 ==> dns::name_text(labels) == text::lossy_text(labels[0]) + seq!['.']
            + dns::name_text(labels.drop_first()),
{
    reveal_strlit(".");
    let f = |l: Seq<u8>| text::lossy_text(l);
    let parts = labels.map_values(f);
    assert("."@ =~= seq!['.']);
    if labels.len() > 1 {
        texts::joining_goes_on(parts, "."@);
        assert(parts.drop_first() == labels.drop_first().map_values(f));
    }
}

/// Where reading an uncompressed name stops: at its end, or at what is wrong with
/// it.
pub open spec fn stop_at(msg: Seq<u8>, pos: int) -> int
    decreases msg.len() - pos,
{
    if 0 <= pos < msg.len() && 1 <= msg[pos] <= 63 && pos + 1 + msg[pos] <= msg.len() {
        stop_at(msg, pos + 1 + msg[pos])
    } else {
        pos
    }
}

/// An uncompressed name is read as labels exactly if reading stops at a zero byte.
proof fn names_agree(msg: Seq<u8>, pos: int)
    requires
        0 <= pos,
    ensures
        ({
            let p = stop_at(msg, pos);
            match dns::read_name(msg, pos) {
                dns::NameRead::Name { labels, end } => {
                    &&& p < msg.len() && msg[p] == 0
                    &&& labels_at(msg, pos, 0) == Some(labels)
                    &&& end == name_end(msg, pos)
                    &&& end == p + 1
                    &&& sized(labels)
                },
                dns::NameRead::Truncated => p >= msg.len() && labels_at(msg, pos, 0) is None,
                dns::NameRead::Compressed => p < msg.len() && msg[p] >= 64 && labels_at(
                    msg,
                    pos,
                    0,
                ) is None,
                dns::NameRead::TruncatedLabel => p < msg.len() && 1 <= msg[p] <= 63 && labels_at(
                    msg,
                    pos,
                    0,
                ) is None,
            }
        }),
    decreases msg.len() - pos,
{
    if pos < msg.len() && 1 <= msg[pos] <= 63 && pos + 1 + msg[pos] <= msg.len() {
        let next = pos + 1 + msg[pos];
        names_agree(msg, next);
        if let dns::NameRead::Name { labels, end } = dns::read_name(msg, next) {
            let first = msg.subrange(pos + 1, next);
            let all = seq![first] + labels;
            assert forall|i: int| 0 <= i < all.len() implies 1 <= (#[trigger] all[i]).len()
                <= 63 by {
                if i > 0 {
                    assert(all[i] == labels[i - 1]);
                }
            }
            assert(next < msg.len());
        }
    }
}

/// A message asks a question exactly if it has a header that announces one, a name
/// without compression, a type, and the Internet class. The question is what
/// stands there, whatever flags and counts of other records stand in the header
/// and whatever follows.
pub proof fn questions_read_back(buf: Seq<u8>)
    ensures
        ({
            let end = name_end(buf, 12);
            let asks = buf.len() >= 12 && header_of(buf).questions > 0 && labels_at(buf, 12, 0)
                is Some && end + 4 <= buf.len() && number16(buf, end + 2) == 1;
            &&& dns::query_of(buf) is Ok <==> asks
            &&& dns::query_of(buf) matches Ok(q) ==> {
                &&& q.id == header_of(buf).id
                &&& labels_at(buf, 12, 0) == Some(q.labels)
                &&& q.qtype == number16(buf, end)
            }
        }),
{
    names_agree(buf, 12);
}

/// What is wrong with a message that asks no question is told: it is too short for
/// a header, announces none, breaks off in the name or holds a compressed one,
/// breaks off behind the name, or is of another class, which is named.
pub proof fn bad_questions_are_told_apart(buf: Seq<u8>)
    ensures
        ({
            let p = stop_at(buf, 12);
            if buf.len() < 12 {
                dns::query_of(buf) == Err::<dns::Question, QueryError>(QueryError::ShortMessage)
            } else if header_of(buf).questions == 0 {
                dns::query_of(buf) == Err::<dns::Question, QueryError>(QueryError::NoQuestions)
            } else if p >= buf.len() {
                dns::query_of(buf) == Err::<dns::Question, QueryError>(QueryError::TruncatedName)
            } else if buf[p] >= 64 {
                dns::query_of(buf) == Err::<dns::Question, QueryError>(QueryError::CompressedName)
            } else if buf[p] > 0 {
                dns::query_of(buf) == Err::<dns::Question, QueryError>(QueryError::TruncatedLabel)
            } else if p + 5 > buf.len() {
                dns::query_of(buf) == Err::<dns::Question, QueryError>(QueryError::TruncatedType)
            } else {
                number16(buf, p + 3) != 1 ==> dns::query_of(buf) == Err::<
                    dns::Question,
                    QueryError,
                >(QueryError::UnsupportedClass(number16(buf, p + 3) as u16))
            }
        }),
{
    names_agree(buf, 12);
}

/// The numbers of the protocol are those of the RFCs.
pub proof fn dns_numbers(qtype: u16)
    ensures
        dns::QTYPE_A == 1,
        dns::QTYPE_AAAA == 28,
        dns::QCLASS_IN == 1,
        dns::RCODE_NOERROR == 0,
        dns::RCODE_SERVFAIL == 2,
        dns::RCODE_NXDOMAIN == 3,
        dns::RCODE_NOTIMP == 4,
        dns::asks_for_address(qtype) <==> qtype == 1 || qtype == 28,
{
}

/// What is wrong with a question is said; the message on one of another class
/// names the class.
pub proof fn query_errors_read_back(class: u16)
    ensures
        QueryError::ShortMessage.text() == "message shorter than a DNS header"@,
        QueryError::NoQuestions.text() == "query has no questions"@,
        QueryError::TruncatedName.text() == "truncated qname"@,
        QueryError::CompressedName.text() == "compressed QNAME in a query is not supported"@,
        QueryError::TruncatedLabel.text() == "truncated qname label"@,
        QueryError::TruncatedType.text() == "truncated qtype/qclass"@,
        texts::begins_with(QueryError::UnsupportedClass(class).text(), "unsupported query class "@),
        texts::writes(
            QueryError::UnsupportedClass(class).text().skip(
                "unsupported query class "@.len() as int,
            ),
            class as int,
        ),
{
    texts::decimals_read_back(class as nat);
    texts::behind_is_found("unsupported query class "@, text::decimal_text(class as nat));
}

/// A parsed query keeps the question as it was asked: read again, its raw bytes
/// are the name, the type and the Internet class.
pub proof fn parsed_queries_read_back(query: dns::ParsedQuery, q: dns::Question)
    requires
        query.represents(q),
        sized(q.labels),
    ensures
        query.id == q.id,
        query.qtype == q.qtype,
        query.qname@ == dns::name_text(q.labels),
        ({
            let raw = query.question_raw@;
            let end = name_end(raw, 0);
            &&& labels_at(raw, 0, 0) == Some(q.labels)
            &&& end + 4 == raw.len()
            &&& number16(raw, end) == q.qtype
            &&& number16(raw, end + 2) == 1
        }),
{
    let raw = query.question_raw@;
    let wire = dns::wire_name(q.labels);
    assert(raw.subrange(0, wire.len() as int) =~= wire);
    wire_labels(raw, 0, q.labels, 0);
    let n = wire.len() as int;
    assert(raw[n] == dns::be16(q.qtype as nat)[0] && raw[n + 1] == dns::be16(q.qtype as nat)[1]);
    assert(raw[n + 2] == 0 && raw[n + 3] == 1);
}

/// The answers that a resolver reads from the reply to its question: those
/// addresses that were resolved and are of the asked family, in order, each under
/// the name that was asked for.
pub proof fn resolved_answers_read_back(
    id: u16,
    labels: Seq<Seq<u8>>,
    qtype: u16,
    ips: Seq<IpAddress>,
    i: int,
)
    requires
        sized(labels),
        ips.len() < 65536,
        0 <= i < ips.filter(|ip: IpAddress| (ip is V6) == (qtype == 28)).len(),
    ensures
        ({
            let found = ips.filter(|ip: IpAddress| (ip is V6) == (qtype == 28));
            let msg = dns::resolved_reply(
                id,
                dns::question_bytes(labels, qtype),
                qtype,
                Some(ips),
            );
            record_at(msg, answer_position(msg, i)) == (Record {
                owner: Some(labels),
                rtype: qtype as int,
                class: 1,
                ttl: 60,
                data: found[i].octets(),
            })
        }),
{
    let found = ips.filter(|ip: IpAddress| (ip is V6) == (qtype == 28));
    resolved_replies_read_back(id, dns::question_bytes(labels, qtype), qtype, Some(ips));
    answers_read_back(id, labels, qtype, 0, found, i);
}

/// A question for anything but addresses is answered: with its own identifier and
/// question, code 4, and no answers.
#[verifier::rlimit(40)]
pub proof fn other_questions_are_answered(q: dns::Question)
    requires
        sized(q.labels),
    ensures
        ({
            let msg = dns::not_implemented(q);
            &&& header_of(msg).id == q.id
            &&& header_of(msg).response
            &&& header_of(msg).rcode == 4
            &&& header_of(msg).answers == 0
            &&& labels_at(msg, 12, 0) == Some(q.labels)
            &&& number16(msg, name_end(msg, 12)) == q.qtype
            &&& name_end(msg, 12) + 4 == msg.len()
        }),
{
    let question = dns::question_bytes(q.labels, q.qtype);
    reply_headers_read_back(q.id, question, q.qtype, 4, Seq::empty());
    let msg = dns::not_implemented(q);
    let head = dns::reply_header(q.id, 4, 0);
    let wire = dns::wire_name(q.labels);
    assert(head.len() == 12);
    assert(dns::records_bytes(q.qtype, Seq::empty()).len() == 0);
    assert(msg.subrange(12, 12 + wire.len() as int) =~= wire);
    wire_labels(msg, 12, q.labels, 0);
    let n = 12 + wire.len() as int;
    assert(msg[n] == dns::be16(q.qtype as nat)[0] && msg[n + 1] == dns::be16(q.qtype as nat)[1]);
}

/// A resolver that runs keeps its address when it is asked to run on another; one
/// that does not takes the one that it is asked for.
pub proof fn running_resolvers_stay(running: Option<Seq<char>>, addr: Seq<char>)
    ensures
        running is Some ==> dns::after_start(running, addr) == running,
        running is None ==> dns::after_start(running, addr) == Some(addr),
{
}

} // verus!
