//! DNS, leak policy, SOCKS, kill switches and redirection.
use anonet::dns::{
    build_response, finish_query, parse_query, plan_query, DnsShimController, QueryError,
    QueryPlan, QCLASS_IN, QTYPE_A, QTYPE_AAAA, RCODE_NOERROR, RCODE_NXDOMAIN, RCODE_SERVFAIL,
};
use anonet::killswitch::{current_uid, KillSwitch};
use anonet::net::IpAddress;
use anonet::nft::{exited, is_removed, is_table_present, run_result, ScriptRun};
use anonet::policy::{Destination, LeakPolicy, LeakViolation};
use anonet::redirect::TransparentRedirect;
use anonet::socks::{
    connect_reply_code, credentials_reply, isolation_identity, method_reply, negotiate_method,
    parse_credentials, parse_greeting, read_connect_request, reply, screen, AuthMethod,
    ConnectParse, CredentialsParse, GreetingParse, SocksError, REP_ATYP_NOT_SUPPORTED,
    REP_CMD_NOT_SUPPORTED, REP_GENERAL_FAILURE, REP_SUCCESS,
};

/// Hand-built query for "example.com", with recursion desired.
fn query_for(id: u16, qtype: u16, qclass: u16) -> Vec<u8> {
    let mut buf = Vec::new();
    buf.extend_from_slice(&id.to_be_bytes());
    buf.extend_from_slice(&0x0100u16.to_be_bytes());
    buf.extend_from_slice(&1u16.to_be_bytes());
    buf.extend_from_slice(&0u16.to_be_bytes());
    buf.extend_from_slice(&0u16.to_be_bytes());
    buf.extend_from_slice(&0u16.to_be_bytes());
    for label in ["example", "com"] {
        buf.push(label.len() as u8);
        buf.extend_from_slice(label.as_bytes());
    }
    buf.push(0);
    buf.extend_from_slice(&qtype.to_be_bytes());
    buf.extend_from_slice(&qclass.to_be_bytes());
    buf
}

fn sample_a_query(id: u16) -> Vec<u8> {
    query_for(id, QTYPE_A, QCLASS_IN)
}

#[test]
fn parses_qname_and_qtype() {
    let query = parse_query(&sample_a_query(0x1234)).unwrap();
    assert_eq!(query.id, 0x1234);
    assert_eq!(query.qname, "example.com");
    assert_eq!(query.qtype, QTYPE_A);
}

#[test]
fn rejects_compressed_qname() {
    let mut buf = sample_a_query(1);
    buf[12] = 0xC0;
    assert!(parse_query(&buf).is_err());
}

#[test]
fn response_roundtrips_id_and_answer() {
    let query = parse_query(&sample_a_query(0xBEEF)).unwrap();
    let ip = IpAddress::V4([93, 184, 216, 34]);
    let response = build_response(query.id, &query.question_raw, query.qtype, RCODE_NOERROR, &vec![ip]);

    assert_eq!(u16::from_be_bytes([response[0], response[1]]), 0xBEEF);
    let ancount = u16::from_be_bytes([response[6], response[7]]);
    assert_eq!(ancount, 1);
    assert_eq!(&response[response.len() - 4..], &[93, 184, 216, 34]);
}

#[test]
fn nxdomain_response_has_zero_answers_and_rcode_3() {
    let query = parse_query(&sample_a_query(1)).unwrap();
    let response = build_response(query.id, &query.question_raw, query.qtype, RCODE_NXDOMAIN, &vec![]);
    let ancount = u16::from_be_bytes([response[6], response[7]]);
    assert_eq!(ancount, 0);
    assert_eq!(response[3] & 0x0F, RCODE_NXDOMAIN);
}

#[test]
fn each_malformed_query_has_its_error() {
    assert!(matches!(parse_query(&[0; 11]), Err(QueryError::ShortMessage)));
    assert!(matches!(parse_query(&[0; 12]), Err(QueryError::NoQuestions)));
    let full = sample_a_query(7);
    assert!(matches!(parse_query(&full[..12]), Err(QueryError::TruncatedName)));
    assert!(matches!(parse_query(&full[..15]), Err(QueryError::TruncatedLabel)));
    assert!(matches!(parse_query(&full[..full.len() - 1]), Err(QueryError::TruncatedType)));
    let mut pointer = full.clone();
    pointer[12] = 0xC0;
    assert!(matches!(parse_query(&pointer), Err(QueryError::CompressedName)));
    let chaos = query_for(7, QTYPE_A, 3);
    match parse_query(&chaos) {
        Err(QueryError::UnsupportedClass(c)) => {
            assert_eq!(c, 3);
            assert_eq!(QueryError::UnsupportedClass(c).message(), "unsupported query class 3");
        }
        _ => panic!("class 3 is not supported"),
    }
}

#[test]
fn only_address_queries_are_resolved() {
    assert!(matches!(plan_query(&sample_a_query(1)), QueryPlan::Resolve(_)));
    assert!(matches!(plan_query(&query_for(1, QTYPE_AAAA, QCLASS_IN)), QueryPlan::Resolve(_)));
    match plan_query(&query_for(9, 15, QCLASS_IN)) {
        QueryPlan::Reply(out) => {
            assert_eq!(out[3] & 0x0F, 4);
            assert_eq!(&out[6..8], &[0, 0]);
        }
        _ => panic!("MX is answered at once"),
    }
    assert!(matches!(plan_query(&[]), QueryPlan::Drop(QueryError::ShortMessage)));
}

#[test]
fn answers_are_of_the_asked_family() {
    let query = parse_query(&sample_a_query(5)).unwrap();
    let both = vec![IpAddress::V6([1; 16]), IpAddress::V4([9, 8, 7, 6])];
    let out = finish_query(&query, Some(&both));
    assert_eq!(&out[6..8], &[0, 1]);
    assert_eq!(&out[out.len() - 4..], &[9, 8, 7, 6]);
    let failed = finish_query(&query, None);
    assert_eq!(failed[3] & 0x0F, RCODE_SERVFAIL);
    assert_eq!(&failed[6..8], &[0, 0]);
    let other = finish_query(&query, Some(&vec![IpAddress::V6([1; 16])]));
    assert_eq!(other[3] & 0x0F, RCODE_NXDOMAIN);
    assert_eq!(&other[6..8], &[0, 0]);
}

#[test]
fn non_utf8_labels_are_replaced() {
    let mut buf = sample_a_query(2);
    buf[13] = 0xFF;
    assert_eq!(parse_query(&buf).unwrap().qname, "\u{FFFD}xample.com");
}

#[test]
fn shim_starts_once_and_stops() {
    let mut c = DnsShimController::new();
    assert_eq!(c.bound_addr(), None);
    assert!(!c.stop());
    assert!(c.start("127.0.0.1:9535").is_ok());
    assert_eq!(c.start("127.0.0.1:1"), Err("DNS shim is already running".to_string()));
    assert_eq!(c.bound_addr(), Some("127.0.0.1:9535".to_string()));
    assert!(c.stop());
    assert_eq!(c.bound_addr(), None);
}

#[test]
fn strict_policy_rejects_raw_ip() {
    let policy = LeakPolicy::strict();
    let dest = Destination::Ip(IpAddress::V4([1, 1, 1, 1]));
    assert!(policy.check(&dest).is_err());
}

#[test]
fn strict_policy_allows_hostname() {
    let policy = LeakPolicy::strict();
    let dest = Destination::Host("example.com".to_string());
    assert!(policy.check(&dest).is_ok());
}

#[test]
fn permissive_policy_allows_raw_ip() {
    let policy = LeakPolicy::permissive();
    let dest = Destination::Ip(IpAddress::V4([1, 1, 1, 1]));
    assert!(policy.check(&dest).is_ok());
}

#[test]
fn default_policy_is_strict_and_says_why() {
    let dest = Destination::Ip(IpAddress::V6([0; 16]));
    match LeakPolicy::default().check(&dest) {
        Err(LeakViolation::RawIpRejected(ip)) => {
            let text = LeakViolation::RawIpRejected(ip).message();
            assert!(text.starts_with("raw IP address :: rejected by DNS-leak policy: "));
            assert!(text.ends_with("Configure the client for remote (SOCKS5) DNS resolution."));
        }
        Ok(()) => panic!("a raw address is rejected"),
    }
}

#[test]
fn addresses_are_written_canonically() {
    let v6 = |groups: [u16; 8]| {
        let mut o = [0u8; 16];
        for (i, g) in groups.iter().enumerate() {
            o[2 * i] = (g >> 8) as u8;
            o[2 * i + 1] = *g as u8;
        }
        IpAddress::V6(o).to_text()
    };
    assert_eq!(IpAddress::V4([192, 0, 2, 255]).to_text(), "192.0.2.255");
    assert_eq!(v6([0, 0, 0, 0, 0, 0, 0, 1]), "::1");
    assert_eq!(v6([0x2001, 0xdb8, 0, 0, 1, 0, 0, 1]), "2001:db8::1:0:0:1");
    assert_eq!(v6([1, 2, 3, 4, 5, 6, 7, 0]), "1:2:3:4:5:6:7:0");
    assert_eq!(v6([0, 0, 0, 0, 0, 0xffff, 0x0102, 0x0304]), "::ffff:1.2.3.4");
}

#[test]
fn greeting_is_read_piece_by_piece() {
    assert!(matches!(parse_greeting(&[]), GreetingParse::More(2)));
    assert!(matches!(parse_greeting(&[5]), GreetingParse::More(1)));
    assert!(matches!(parse_greeting(&[4, 1]), GreetingParse::Refused(SocksError::Version(4))));
    assert!(matches!(parse_greeting(&[5, 2, 0]), GreetingParse::More(1)));
    match parse_greeting(&[5, 2, 0, 2]) {
        GreetingParse::Methods(m) => assert_eq!(m, vec![0, 2]),
        _ => panic!("a complete greeting"),
    }
}

#[test]
fn methods_are_negotiated() {
    assert_eq!(negotiate_method(&vec![0, 2]), Some(AuthMethod::UserPass));
    assert_eq!(negotiate_method(&vec![1, 0]), Some(AuthMethod::NoAuth));
    assert_eq!(negotiate_method(&vec![1]), None);
    assert_eq!(method_reply(Some(AuthMethod::NoAuth)), vec![5, 0]);
    assert_eq!(method_reply(Some(AuthMethod::UserPass)), vec![5, 2]);
    assert_eq!(method_reply(None), vec![5, 0xFF]);
    assert_eq!(
        SocksError::NoAcceptableMethod.message(),
        "client offered no acceptable auth method"
    );
}

#[test]
fn username_is_the_identity() {
    let mut msg = vec![1, 5];
    msg.extend_from_slice(b"alice");
    assert!(matches!(parse_credentials(&msg), CredentialsParse::More(1)));
    msg.push(1);
    assert!(matches!(parse_credentials(&msg), CredentialsParse::More(1)));
    msg.push(b'x');
    let name = match parse_credentials(&msg) {
        CredentialsParse::Username(u) => u,
        _ => panic!("complete credentials"),
    };
    assert_eq!(isolation_identity(Some(name)), b"alice".to_vec());
    assert_eq!(isolation_identity(None), b"default".to_vec());
    assert_eq!(credentials_reply(), vec![1, 0]);
    assert!(matches!(
        parse_credentials(&[5, 0]),
        CredentialsParse::Refused(SocksError::AuthVersion(5))
    ));
    assert_eq!(SocksError::AuthVersion(5).message(), "unsupported auth version 5");
}

#[test]
fn connect_requests_are_read() {
    let mut host = vec![5, 1, 0, 3, 11];
    host.extend_from_slice(b"example.com");
    host.extend_from_slice(&[0x01, 0xBB]);
    for n in 0..host.len() {
        match read_connect_request(&host[..n]) {
            ConnectParse::More(k) => assert!(k > 0 && n + k <= host.len()),
            _ => panic!("a prefix is not complete"),
        }
    }
    match read_connect_request(&host) {
        ConnectParse::Request { dest: Destination::Host(h), port } => {
            assert_eq!(h, "example.com");
            assert_eq!(port, 443);
        }
        _ => panic!("a complete request"),
    }
    match read_connect_request(&[5, 1, 0, 1, 10, 0, 0, 1, 0, 80]) {
        ConnectParse::Request { dest: Destination::Ip(ip), port } => {
            assert_eq!(ip.to_text(), "10.0.0.1");
            assert_eq!(port, 80);
        }
        _ => panic!("a complete request"),
    }
    let mut v6 = vec![5, 1, 0, 4];
    v6.extend_from_slice(&[0; 15]);
    v6.extend_from_slice(&[1, 0, 53]);
    match read_connect_request(&v6) {
        ConnectParse::Request { dest: Destination::Ip(ip), port } => {
            assert_eq!(ip.to_text(), "::1");
            assert_eq!(port, 53);
        }
        _ => panic!("a complete request"),
    }
}

#[test]
fn refused_requests_are_answered() {
    match read_connect_request(&[5, 2, 0, 1]) {
        ConnectParse::Refused { error, reply } => {
            assert_eq!(error.message(), "only CONNECT is supported (got cmd 2)");
            assert_eq!(reply, Some(REP_CMD_NOT_SUPPORTED));
        }
        _ => panic!("BIND is not supported"),
    }
    match read_connect_request(&[5, 1, 0, 9]) {
        ConnectParse::Refused { error, reply } => {
            assert_eq!(error.message(), "unsupported address type 9");
            assert_eq!(reply, Some(REP_ATYP_NOT_SUPPORTED));
        }
        _ => panic!("type 9 is unknown"),
    }
    match read_connect_request(&[4, 1, 0, 1]) {
        ConnectParse::Refused { error, reply } => {
            assert_eq!(error.message(), "unsupported SOCKS version 4 in request");
            assert_eq!(reply, None);
        }
        _ => panic!("version 4 is not supported"),
    }
    match read_connect_request(&[5, 1, 0, 3, 1, 0xFF]) {
        ConnectParse::Refused { error, reply } => {
            assert_eq!(error.message(), "domain name was not valid UTF-8");
            assert_eq!(reply, None);
        }
        _ => panic!("not UTF-8"),
    }
    assert_eq!(SocksError::Version(4).message(), "unsupported SOCKS version 4");
}

#[test]
fn screened_requests_keep_the_host_name() {
    let strict = LeakPolicy::strict();
    let host = Destination::Host("example.com".to_string());
    assert_eq!(screen(&strict, &host).unwrap(), "example.com");
    let raw = Destination::Ip(IpAddress::V4([1, 2, 3, 4]));
    let refusal = screen(&strict, &raw).unwrap_err();
    assert_eq!(refusal.answer, vec![5, 1, 0, 1, 0, 0, 0, 0, 0, 0]);
    assert!(refusal.violation.message().contains("1.2.3.4"));
    assert_eq!(screen(&LeakPolicy::permissive(), &raw).unwrap(), "1.2.3.4");
    assert_eq!(connect_reply_code(true), REP_SUCCESS);
    assert_eq!(connect_reply_code(false), REP_GENERAL_FAILURE);
    assert_eq!(reply(REP_GENERAL_FAILURE), vec![5, 1, 0, 1, 0, 0, 0, 0, 0, 0]);
}

#[test]
fn scoped_ruleset_only_allows_loopback_for_that_uid() {
    let ruleset = KillSwitch::Scoped { protect_uid: 1000 }.ruleset();
    assert!(ruleset.contains("table inet anonet_ks_scoped"));
    assert!(ruleset.contains("meta skuid 1000 oif lo accept"));
    assert!(ruleset.contains("meta skuid 1000 counter drop"));
    assert!(!ruleset.contains("meta skuid 1000 accept\n\t\tcounter drop"));
}

#[test]
fn radical_ruleset_allows_only_lo_and_anonet_uid() {
    let ruleset = KillSwitch::Radical { anonet_uid: 1000 }.ruleset();
    assert!(ruleset.contains("table inet anonet_ks_system"));
    assert!(ruleset.contains("oif lo accept"));
    assert!(ruleset.contains("meta skuid 1000 accept"));
    assert!(ruleset.trim_end().ends_with("counter drop\n\t}\n}"));
}

#[test]
fn table_names_are_distinct() {
    assert_ne!(
        KillSwitch::Scoped { protect_uid: 1 }.table(),
        KillSwitch::Radical { anonet_uid: 1 }.table()
    );
}

#[test]
fn rulesets_are_exact() {
    assert_eq!(
        KillSwitch::Scoped { protect_uid: 1000 }.ruleset(),
        "table inet anonet_ks_scoped {\n\tchain output {\n\t\ttype filter hook output priority 0; policy accept;\n\t\tmeta skuid 1000 oif lo accept\n\t\tmeta skuid 1000 ip daddr 127.0.0.1 accept\n\t\tmeta skuid 1000 ip6 daddr ::1 accept\n\t\tmeta skuid 1000 counter drop\n\t}\n}\n"
    );
    assert_eq!(
        KillSwitch::Radical { anonet_uid: 0 }.ruleset(),
        "table inet anonet_ks_system {\n\tchain output {\n\t\ttype filter hook output priority 0; policy accept;\n\t\toif lo accept\n\t\tmeta skuid 0 accept\n\t\tcounter drop\n\t}\n}\n"
    );
    assert_eq!(
        KillSwitch::Radical { anonet_uid: 0 }.removal_script(),
        "delete table inet anonet_ks_system\n"
    );
}

#[test]
fn ruleset_exempts_anonet_uid_and_local_ranges() {
    let r = TransparentRedirect { anonet_uid: 1000, trans_port: 9040, dns_port: 5300 };
    let ruleset = r.ruleset();
    assert!(ruleset.contains("table inet anonet_transparent"));
    assert!(ruleset.contains("meta skuid 1000 return"));
    assert!(ruleset.contains("192.168.0.0/16"));
    assert!(ruleset.contains("tcp dport 22 return"));
    assert!(ruleset.contains("redirect to :9040"));
    assert!(ruleset.contains("redirect to :5300"));
}

#[test]
fn redirection_is_exact() {
    let r = TransparentRedirect { anonet_uid: 7, trans_port: 9040, dns_port: 5300 };
    let rules = "\t\tmeta skuid 7 return\n\t\tip daddr { 127.0.0.0/8, 10.0.0.0/8, 172.16.0.0/12, 192.168.0.0/16 } return\n\t\tip6 daddr { ::1, fc00::/7, fe80::/10 } return\n\t\ttcp dport 22 return\n\t\tudp dport 53 redirect to :5300\n\t\tmeta l4proto tcp redirect to :9040\n";
    let expected = format!(
        "table inet anonet_transparent {{\n\tchain prerouting {{\n\t\ttype nat hook prerouting priority -100; policy accept;\n{rules}\t}}\n\tchain output {{\n\t\ttype nat hook output priority -100; policy accept;\n{rules}\t}}\n}}\n"
    );
    assert_eq!(r.ruleset(), expected);
    assert_eq!(r.removal_script(), "delete table inet anonet_transparent\n");
    assert_eq!(r.table(), "anonet_transparent");
}

#[test]
fn nft_answers_are_told_apart() {
    let absent = b"Error: No such file or directory\nlist table inet x\n";
    assert_eq!(is_table_present(true, b""), Ok(true));
    assert_eq!(is_table_present(false, absent), Ok(false));
    assert_eq!(
        is_table_present(false, b"  Operation not permitted \xFF\n"),
        Err("nft could not report table status: Operation not permitted \u{FFFD}".to_string())
    );
    let ks = KillSwitch::Scoped { protect_uid: 1 };
    assert_eq!(ks.is_enabled(false, absent), Ok(false));
    assert_eq!(run_result(&nft_exit(0, b"noise")), Ok(()));
    assert_eq!(
        run_result(&nft_exit(1, b" boom\xFF\n")),
        Err("nft failed (exit status: 1): boom\u{FFFD}".to_string())
    );
    assert_eq!(
        run_result(&ScriptRun::NotSpawned),
        Err("failed to spawn `nft` (is nftables installed?)".to_string())
    );
    assert_eq!(
        run_result(&ScriptRun::NotFed),
        Err("failed to write ruleset to `nft` stdin".to_string())
    );
    assert_eq!(
        run_result(&ScriptRun::NotAwaited),
        Err("failed waiting for `nft` to exit".to_string())
    );
    assert!(is_removed(&nft_exit(1, absent)));
    assert!(!is_removed(&nft_exit(1, b"Operation not permitted")));
    assert!(!is_removed(&ScriptRun::NotSpawned));
}

fn nft_exit(code: i32, stderr: &[u8]) -> ScriptRun {
    exited(code == 0, format!("exit status: {code}"), stderr)
}

#[test]
fn disabling_is_idempotent() {
    let ks = KillSwitch::Radical { anonet_uid: 1 };
    let absent = nft_exit(1, b"/dev/stdin:1:19-34: Error: No such file or directory\n");
    assert!(ks.disable(&nft_exit(0, b"")).is_ok());
    assert!(ks.disable(&absent).is_ok());
    let err = ks.disable(&nft_exit(1, b"denied\n")).unwrap_err();
    assert_eq!(err.context, "failed to disable kill switch (table anonet_ks_system)");
    assert_eq!(err.cause, "nft failed (exit status: 1): denied");
    let err = ks.disable(&ScriptRun::NotSpawned).unwrap_err();
    assert_eq!(err.cause, "failed to spawn `nft` (is nftables installed?)");
    assert!(ks.disable(&ScriptRun::NotFed).is_err());
    assert!(ks.disable(&ScriptRun::NotAwaited).is_err());
    let err = ks.enable(&absent).unwrap_err();
    assert_eq!(err.context, "failed to enable kill switch (table anonet_ks_system)");
    let r = TransparentRedirect { anonet_uid: 1, trans_port: 2, dns_port: 3 };
    assert!(r.enable(&nft_exit(0, b"")).is_ok());
    assert_eq!(
        r.enable(&absent).unwrap_err().context,
        "failed to enable transparent redirect"
    );
    assert!(r.disable(&absent).is_ok());
    assert_eq!(
        r.disable(&ScriptRun::NotSpawned).unwrap_err().context,
        "failed to disable transparent redirect"
    );
    assert_eq!(r.is_enabled(true, b""), Ok(true));
}

#[test]
fn own_user_is_read() {
    assert_eq!(current_uid(true, "exit status: 0", b"1000\n"), Ok(1000));
    assert_eq!(
        current_uid(true, "exit status: 0", b"root\n"),
        Err("`id -u` did not print a plain integer".to_string())
    );
    assert_eq!(
        current_uid(true, "exit status: 0", b"4294967296"),
        Err("`id -u` did not print a plain integer".to_string())
    );
    assert_eq!(
        current_uid(false, "exit status: 1", b"1000\n"),
        Err("`id -u` exited with exit status: 1".to_string())
    );
}
