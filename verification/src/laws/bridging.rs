//! Bridges: how they are asked for, found, checked and recorded.
use crate::bridges::{
    self, BridgeManager, ClientConfig, HealthResult, ProbeOutcome, Storage, Transport,
};
use crate::cli;
use crate::coordinator::{self, AfterScan, Event, Standing};
use crate::dashboard;
use crate::discovery::{self, FileMeta};
use crate::laws::texts;
use crate::monitor;
use crate::span::Span;
use crate::telemetry::{self, CandidateStatus, HealthStatus, Row};
use crate::text;
use vstd::prelude::*;
use vstd::string::*;

verus! {

// ---------------------------------------------------------------------------
// Transports.
// ---------------------------------------------------------------------------
/// A `--pt` option that names a transport and a binary is read as these.
pub proof fn pt_options_read_back(protocol: Seq<char>, path: Seq<char>)
    requires
        protocol.len() > 0,
        path.len() > 0,
        !protocol.contains('='),
    ensures
        cli::pt_outcome(protocol + seq!['='] + path) == Ok::<Transport, Seq<char>>(
            Transport { protocol, path },
        ),
{
    let s = protocol + seq!['='] + path;
    let n = text::find_char(s, '=') as int;
    text::find_char_is_first(s, '=');
    assert(s[protocol.len() as int] == '=');
    if n < protocol.len() {
        assert(s[n] == protocol[n]);
        assert(protocol.contains('='));
    }
    assert(n == protocol.len());
    assert(s.take(n) =~= protocol);
    assert(s.skip(n + 1) =~= path);
}

/// A `--pt` option is refused exactly if it has no `=`, or nothing in front of the
/// first one or behind it; the error quotes the option.
pub proof fn bad_pt_options_are_quoted(option: Seq<char>)
    ensures
        cli::pt_outcome(option) is Err <==> !option.contains('=') || option[0] == '=' || (
        option.last() == '=' && !option.drop_last().contains('=')),
        cli::pt_outcome(option) matches Err(e) ==> if option.contains('=') {
            texts::between(e, "--pt protocol and path must both be non-empty (got '"@, "')"@)
                == Some(option)
        } else {
            texts::between(e, "--pt must be formatted as protocol=/path/to/binary, got '"@, "'"@)
                == Some(option)
        },
{
    let n = text::find_char(option, '=') as int;
    text::find_char_is_first(option, '=');
    if n < option.len() {
        assert(option[n] == '=');
        assert(option.contains('='));
    }
    if option.contains('=') {
        let k = choose|k: int| 0 <= k < option.len() && option[k] == '=';
        assert(n <= k);
    }
    let front = option.drop_last();
    if option.len() > 0 && n < front.len() {
        assert(front[n] == option[n]);
        assert(front.contains('='));
    }
    if option.len() > 0 && front.contains('=') {
        let k = choose|k: int| 0 <= k < front.len() && front[k] == '=';
        assert(option[k] == front[k]);
        assert(n <= k);
    }
    texts::between_is_found(
        "--pt must be formatted as protocol=/path/to/binary, got '"@,
        option,
        "'"@,
    );
    texts::between_is_found(
        "--pt protocol and path must both be non-empty (got '"@,
        option,
        "')"@,
    );
}

/// The options together give one transport each, in order, if each is good; else
/// the error of the first that is not.
pub proof fn pt_lists_read_back(options: Seq<Seq<char>>)
    ensures
        match cli::pts_outcome(options) {
            Ok(list) => list.len() == options.len() && forall|i: int|
                0 <= i < options.len() ==> cli::pt_outcome(#[trigger] options[i]) == Ok::<
                    Transport,
                    Seq<char>,
                >(list[i]),
            Err(e) => exists|i: int|
                0 <= i < options.len() && cli::pt_outcome(#[trigger] options[i]) == Err::<
                    Transport,
                    Seq<char>,
                >(e) && forall|j: int|
                    0 <= j < i ==> cli::pt_outcome(#[trigger] options[j]) is Ok,
        },
    decreases options.len(),
{
    if options.len() > 0 {
        let front = options.drop_last();
        pt_lists_read_back(front);
        match cli::pts_outcome(front) {
            Ok(list) => {
                assert forall|i: int| 0 <= i < front.len() implies cli::pt_outcome(
                    #[trigger] options[i],
                ) == Ok::<Transport, Seq<char>>(list[i]) by {
                    assert(front[i] == options[i]);
                }
                assert(cli::pt_outcome(options[options.len() - 1]) == cli::pt_outcome(
                    options.last(),
                ));
                if let Ok(t) = cli::pt_outcome(options.last()) {
                    let all = list.push(t);
                    assert forall|i: int| 0 <= i < options.len() implies cli::pt_outcome(
                        #[trigger] options[i],
                    ) == Ok::<Transport, Seq<char>>(all[i]) by {
                        if i < front.len() {
                            assert(front[i] == options[i]);
                        }
                    }
                }
            },
            Err(e) => {
                let i = choose|i: int|
                    0 <= i < front.len() && cli::pt_outcome(#[trigger] front[i]) == Err::<
                        Transport,
                        Seq<char>,
                    >(e) && forall|j: int|
                        0 <= j < i ==> cli::pt_outcome(#[trigger] front[j]) is Ok;
                assert(options[i] == front[i]);
                assert forall|j: int| 0 <= j < i implies cli::pt_outcome(
                    #[trigger] options[j],
                ) is Ok by {
                    assert(front[j] == options[j]);
                }
            },
        }
    }
}

/// A list of transports is good exactly if every name is; else the first bad name
/// is the one that is found.
pub proof fn first_bad_name_is_found(transports: Seq<Transport>)
    ensures
        match bridges::first_bad(transports) {
            None => forall|i: int|
                0 <= i < transports.len() ==> bridges::is_transport_name(
                    (#[trigger] transports[i]).protocol,
                ),
            Some(p) => exists|i: int|
                0 <= i < transports.len() && (#[trigger] transports[i]).protocol == p
                    && !bridges::is_transport_name(p) && forall|j: int|
                    0 <= j < i ==> bridges::is_transport_name((#[trigger] transports[j]).protocol),
        },
    decreases transports.len(),
{
    if transports.len() > 0 {
        let rest = transports.drop_first();
        first_bad_name_is_found(rest);
        if !bridges::is_transport_name(transports[0].protocol) {
            assert(transports[0].protocol == bridges::first_bad(transports)->Some_0);
        } else {
            match bridges::first_bad(rest) {
                None => {
                    assert forall|i: int|
                        0 <= i < transports.len() implies bridges::is_transport_name(
                        (#[trigger] transports[i]).protocol,
                    ) by {
                        if i > 0 {
                            assert(rest[i - 1] == transports[i]);
                        }
                    }
                },
                Some(p) => {
                    let i = choose|i: int|
                        0 <= i < rest.len() && (#[trigger] rest[i]).protocol == p
                            && !bridges::is_transport_name(p) && forall|j: int|
                            0 <= j < i ==> bridges::is_transport_name(
                                (#[trigger] rest[j]).protocol,
                            );
                    assert(transports[i + 1] == rest[i]);
                    assert forall|j: int| 0 <= j < i + 1 implies bridges::is_transport_name(
                        (#[trigger] transports[j]).protocol,
                    ) by {
                        if j > 0 {
                            assert(rest[j - 1] == transports[j]);
                        }
                    }
                },
            }
        }
    }
}

/// Every transport is configured as it was registered, to be launched at once.
pub proof fn transports_are_launched(transports: Seq<Transport>, i: int)
    requires
        0 <= i < transports.len(),
    ensures
        bridges::launched(transports).len() == transports.len(),
        bridges::launched(transports)[i].transport == transports[i],
        bridges::launched(transports)[i].run_on_startup,
{
}

/// A bridge that is added comes last in the failover order, and keeps the others
/// in their places.
pub proof fn added_bridges_come_last(order: Seq<Seq<char>>, line: Seq<char>)
    ensures
        ({
            let after = bridges::with_bridge(order, line);
            &&& after.len() == order.len() + 1
            &&& after[order.len() as int] == line
            &&& forall|i: int| 0 <= i < order.len() ==> #[trigger] after[i] == order[i]
        }),
{
}

/// Adding a bridge is refused exactly if its transport is neither registered nor
/// located. A direct bridge and one of a registered transport register nothing; any
/// other registers its transport with the binary that was located.
pub proof fn needed_transports_are_registered(
    known: Seq<Transport>,
    transport: Seq<char>,
    located: Option<Seq<char>>,
)
    ensures
        ({
            let ready = transport.len() == 0 || exists|i: int|
                0 <= i < known.len() && (#[trigger] known[i]).protocol == transport;
            match bridges::with_transport(known, transport, located) {
                None => !ready && located is None,
                Some(after) => if ready {
                    after == known
                } else {
                    &&& located is Some
                    &&& after.len() == known.len() + 1
                    &&& after.take(known.len() as int) == known
                    &&& after.last().protocol == transport
                    &&& after.last().path == located->Some_0
                },
            }
        }),
{
    if let Some(path) = located {
        assert(known.push(Transport { protocol: transport, path }).take(known.len() as int)
            =~= known);
    }
}

/// A client is configured exactly for a place that has a bridge, with transports
/// whose names are all good: with that bridge and no other, all the transports,
/// and the storage that was asked for.
pub proof fn configurations_fit(
    m: BridgeManager,
    idx: usize,
    storage: Storage,
    res: Result<ClientConfig, String>,
)
    requires
        m.configures(idx, storage, res),
    ensures
        res is Ok <==> idx < m.order().len() && (forall|i: int|
            0 <= i < m.known().len() ==> bridges::is_transport_name(
                (#[trigger] m.known()[i]).protocol,
            )),
        res matches Ok(c) ==> {
            &&& c.bridge_line@ == m.order()[idx as int]
            &&& c.storage == storage
            &&& c.transports@.len() == m.known().len()
            &&& forall|i: int|
                0 <= i < m.known().len() ==> (#[trigger] c.transports@[i]).protocol@
                    == m.known()[i].protocol && c.transports@[i].path@ == m.known()[i].path
                    && c.transports@[i].run_on_startup
        },
        res matches Err(e) ==> idx >= m.order().len() ==> texts::writes(
            e@.skip("no bridge candidate at index "@.len() as int),
            idx as int,
        ),
{
    first_bad_name_is_found(m.known());
    texts::decimals_read_back(idx as nat);
    texts::behind_is_found("no bridge candidate at index "@, text::decimal_text(idx as nat));
    if let Ok(c) = res {
        let made = bridges::configured(c.transports@);
        let wanted = bridges::launched(m.known());
        assert(made.len() == wanted.len());
        assert forall|i: int| 0 <= i < m.known().len() implies (
        #[trigger] c.transports@[i]).protocol@ == m.known()[i].protocol && c.transports@[i].path@
            == m.known()[i].path && c.transports@[i].run_on_startup by {
            assert(made[i] == wanted[i]);
        }
    } else if idx < m.order().len() {
        let p = bridges::first_bad(m.known())->Some_0;
        let i = choose|i: int|
            0 <= i < m.known().len() && (#[trigger] m.known()[i]).protocol == p
                && !bridges::is_transport_name(p) && forall|j: int|
                0 <= j < i ==> bridges::is_transport_name((#[trigger] m.known()[j]).protocol);
        assert(!bridges::is_transport_name(m.known()[i].protocol));
    }
}

/// The messages on a bad transport, a bad line and a missing bridge quote what
/// they are about.
#[verifier::rlimit(40)]
pub proof fn bridge_errors_read_back(
    protocol: Seq<char>,
    line: Seq<char>,
    reason: Seq<char>,
    idx: nat,
    count: nat,
)
    ensures
        texts::between(
            bridges::bad_protocol_text(protocol),
            "invalid pluggable transport protocol name '"@,
            "'"@,
        ) == Some(protocol),
        texts::between(
            bridges::bad_line_text(line, reason),
            "invalid bridge line '"@,
            "': "@ + reason,
        ) == Some(line),
        texts::begins_with(bridges::no_candidate_text(idx), "no bridge candidate at index "@),
        texts::writes(
            bridges::no_candidate_text(idx).skip("no bridge candidate at index "@.len() as int),
            idx as int,
        ),
        texts::between(
            bridges::exhausted_text(count),
            "all "@,
            " configured bridges failed their health check"@,
        ) matches Some(v) && texts::writes(v, count as int),
{
    texts::between_is_found("invalid pluggable transport protocol name '"@, protocol, "'"@);
    texts::between_is_found("invalid bridge line '"@, line, "': "@ + reason);
    assert("invalid bridge line '"@ + line + ("': "@ + reason) =~= bridges::bad_line_text(
        line,
        reason,
    ));
    texts::decimals_read_back(idx);
    texts::decimals_read_back(count);
    texts::behind_is_found("no bridge candidate at index "@, text::decimal_text(idx));
    texts::between_is_found(
        "all "@,
        text::decimal_text(count),
        " configured bridges failed their health check"@,
    );
}

// ---------------------------------------------------------------------------
// Finding binaries.
// ---------------------------------------------------------------------------
/// Binaries are looked for in order of preference, each in every directory before
/// the next one is looked for anywhere.
pub proof fn searches_go_by_preference(
    names: Seq<Seq<char>>,
    dirs: Seq<Seq<char>>,
    n: int,
    d: int,
)
    requires
        0 <= n < names.len(),
        0 <= d < dirs.len(),
    ensures
        discovery::search_order(names, dirs).len() == names.len() * dirs.len(),
        0 <= n * dirs.len() + d < discovery::search_order(names, dirs).len(),
        discovery::search_order(names, dirs)[n * dirs.len() + d] == text::path_text(
            dirs[d],
            names[n],
        ),
    decreases names.len(),
{
    let front = names.drop_last();
    let len = dirs.len() as int;
    let before = discovery::search_order(front, dirs);
    let last = discovery::in_each(dirs, names.last());
    if front.len() > 0 {
        searches_go_by_preference(
            front,
            dirs,
            if n < front.len() {
                n
            } else {
                0
            },
            d,
        );
    } else {
        assert(before.len() == 0);
        assert(front.len() * len == 0);
    }
    assert(before.len() == front.len() * len);
    let m = names.len() as int;
    assert(m * len == (m - 1) * len + len) by (nonlinear_arith);
    if n < front.len() {
        assert(n * len + d < (m - 1) * len) by (nonlinear_arith)
            requires
                0 <= n < m - 1,
                0 <= d < len,
        ;
        assert(0 <= n * len) by (nonlinear_arith)
            requires
                0 <= n,
                0 <= len,
        ;
        assert(front[n] == names[n]);
    } else {
        assert(n == m - 1);
        assert(0 <= (m - 1) * len) by (nonlinear_arith)
            requires
                0 <= m - 1,
                0 <= len,
        ;
        assert(discovery::search_order(names, dirs)[(m - 1) * len + d] == last[d]);
    }
}

/// The known transports and their binaries; any other has none.
pub proof fn known_transports(protocol: Seq<char>)
    ensures
        discovery::binary_names("obfs4"@) == seq!["obfs4proxy"@, "lyrebird"@],
        discovery::binary_names("snowflake"@) == seq!["snowflake-client"@],
        discovery::binary_names("webtunnel"@) == seq!["webtunnel-client"@],
        protocol != "obfs4"@ && protocol != "snowflake"@ && protocol != "webtunnel"@
            ==> discovery::binary_names(protocol).len() == 0,
        discovery::package_of("obfs4"@) == Some("obfs4proxy"@),
        discovery::package_of("snowflake"@) == Some("snowflake-client"@),
        protocol != "obfs4"@ && protocol != "snowflake"@ ==> discovery::package_of(
            protocol,
        ) is None,
{
    reveal_strlit("obfs4");
    reveal_strlit("snowflake");
    reveal_strlit("webtunnel");
    assert("obfs4"@.len() == 5 && "snowflake"@.len() == 9 && "webtunnel"@.len() == 9);
    assert("snowflake"@[0] == 's' && "webtunnel"@[0] == 'w');
}

/// What is said of a missing binary names the transport, and ends with the command
/// to run, if there is one, or with the option to pass.
pub proof fn missing_binaries_are_named(protocol: Seq<char>, command: Option<Seq<char>>)
    ensures
        ({
            let message = discovery::missing_text(protocol, command);
            &&& texts::begins_with(
                message,
                "no '"@ + protocol + "' pluggable-transport binary found"@,
            )
            &&& discovery::package_of(protocol) is Some && command is Some ==> texts::ends_with(
                message,
                "; install it with: "@ + command->Some_0,
            )
            &&& discovery::package_of(protocol) is Some && command is None ==> texts::ends_with(
                message,
                "; install the '"@ + discovery::package_of(protocol)->Some_0
                    + "' package for your distro, or pass --pt "@ + protocol + "=<path>"@,
            )
            &&& discovery::package_of(protocol) is None ==> texts::ends_with(
                message,
                "; pass --pt "@ + protocol + "=<path> to point at it manually"@,
            )
        }),
{
    let message = discovery::missing_text(protocol, command);
    let found = "' pluggable-transport binary found"@;
    let head = "no '"@ + protocol + found;
    missing_words();
    match discovery::package_of(protocol) {
        Some(pkg) => match command {
            Some(c) => {
                let tail = "; install it with: "@ + c;
                assert(message =~= head + tail);
                texts::behind_is_found(head, tail);
                assert(message.skip(message.len() - tail.len()) =~= tail);
            },
            None => {
                let tail = "; install the '"@ + pkg + "' package for your distro, or pass --pt "@
                    + protocol + "=<path>"@;
                assert(message =~= head + tail);
                texts::behind_is_found(head, tail);
                assert(message.skip(message.len() - tail.len()) =~= tail);
            },
        },
        None => {
            let mid = ", and anonet doesn't know which package provides it"@;
            let tail = "; pass --pt "@ + protocol + "=<path> to point at it manually"@;
            assert(message =~= head + (mid + tail));
            texts::behind_is_found(head, mid + tail);
            assert(message.skip(message.len() - tail.len()) =~= tail);
        },
    }
}

proof fn missing_words()
    ensures
        "' pluggable-transport binary found; install it with: "@
            == "' pluggable-transport binary found"@ + "; install it with: "@,
        "' pluggable-transport binary found; install the '"@
            == "' pluggable-transport binary found"@ + "; install the '"@,
        "' pluggable-transport binary found, and anonet doesn't know which package provides it; pass --pt "@
            == "' pluggable-transport binary found"@
            + ", and anonet doesn't know which package provides it"@ + "; pass --pt "@,
{
    reveal_strlit("' pluggable-transport binary found");
    reveal_strlit("; install it with: ");
    reveal_strlit("; install the '");
    reveal_strlit(", and anonet doesn't know which package provides it");
    reveal_strlit("; pass --pt ");
    reveal_strlit("' pluggable-transport binary found; install it with: ");
    reveal_strlit("' pluggable-transport binary found; install the '");
    reveal_strlit(
        "' pluggable-transport binary found, and anonet doesn't know which package provides it; pass --pt ",
    );
    assert("' pluggable-transport binary found; install it with: "@
        =~= "' pluggable-transport binary found"@ + "; install it with: "@);
    assert("' pluggable-transport binary found; install the '"@
        =~= "' pluggable-transport binary found"@ + "; install the '"@);
    assert("' pluggable-transport binary found, and anonet doesn't know which package provides it; pass --pt "@
        =~= "' pluggable-transport binary found"@
        + ", and anonet doesn't know which package provides it"@ + "; pass --pt "@);
}

/// A file may be executed exactly if it is a regular file with one of the three
/// execute bits.
pub proof fn execute_bits_count(meta: FileMeta)
    ensures
        discovery::executable(Some(meta)) <==> meta.is_file && ((meta.mode / 64) % 2 == 1 || (
        meta.mode / 8) % 2 == 1 || meta.mode % 2 == 1),
        !discovery::executable(None),
{
    let mode = meta.mode;
    assert((mode & 0o111 != 0) <==> ((mode / 64) % 2 == 1 || (mode / 8) % 2 == 1 || mode % 2 == 1))
        by (bit_vector);
}

/// The first of a list that is in a set.
pub open spec fn first_in(list: Seq<Seq<char>>, set: Set<Seq<char>>) -> Option<Seq<char>>
    decreases list.len(),
{
    if list.len() == 0 {
        None
    } else if set.contains(list[0]) {
        Some(list[0])
    } else {
        first_in(list.drop_first(), set)
    }
}

/// Where a probe says yes about exactly the paths of a set, a search finds the
/// first path of the list that is in the set.
pub proof fn searches_find_the_first<F: Fn(&str) -> bool>(
    probe: F,
    paths: Seq<Seq<char>>,
    found: Option<Seq<char>>,
    there: Set<Seq<char>>,
)
    requires
        forall|p: Seq<char>| #[trigger]
            discovery::answers(probe, p, true) <==> there.contains(p),
        forall|p: Seq<char>| #[trigger]
            discovery::answers(probe, p, false) <==> !there.contains(p),
        discovery::first_found(probe, paths, found),
    ensures
        found == first_in(paths, there),
    decreases paths.len(),
{
    if paths.len() > 0 {
        let rest = paths.drop_first();
        if there.contains(paths[0]) {
            assert(discovery::answers(probe, paths[0], true));
            assert(!discovery::answers(probe, paths[0], false));
            if let Some(path) = found {
                let k = choose|k: int|
                    #![trigger paths[k]]
                    0 <= k < paths.len() && paths[k] == path && discovery::answers(
                        probe,
                        paths[k],
                        true,
                    ) && (forall|j: int|
                        0 <= j < k ==> discovery::answers(probe, #[trigger] paths[j], false));
                assert(k == 0);
            }
        } else {
            assert(!discovery::answers(probe, paths[0], true));
            match found {
                Some(path) => {
                    let k = choose|k: int|
                        #![trigger paths[k]]
                        0 <= k < paths.len() && paths[k] == path && discovery::answers(
                            probe,
                            paths[k],
                            true,
                        ) && (forall|j: int|
                            0 <= j < k ==> discovery::answers(probe, #[trigger] paths[j], false));
                    assert(rest[k - 1] == path);
                    assert forall|j: int| 0 <= j < k - 1 implies discovery::answers(
                        probe,
                        #[trigger] rest[j],
                        false,
                    ) by {
                        assert(rest[j] == paths[j + 1]);
                    }
                },
                None => {
                    assert forall|j: int| 0 <= j < rest.len() implies discovery::answers(
                        probe,
                        #[trigger] rest[j],
                        false,
                    ) by {
                        assert(rest[j] == paths[j + 1]);
                    }
                },
            }
            assert(discovery::first_found(probe, rest, found));
            searches_find_the_first(probe, rest, found, there);
        }
    }
}

/// Whether a package manager is in one of the directories.
pub open spec fn is_there(dirs: Seq<Seq<char>>, name: Seq<char>, there: Set<Seq<char>>) -> bool {
    exists|d: int| 0 <= d < dirs.len() && there.contains(text::path_text(#[trigger] dirs[d], name))
}

/// Where a probe says yes about exactly the paths of a set, what is suggested is
/// the command of the first package manager that is in one of the directories,
/// with the package behind it; nothing if none is there.
pub proof fn suggestions_fit_the_machine<F: Fn(&str) -> bool>(
    exists_at: F,
    dirs: Seq<Seq<char>>,
    pkg: Seq<char>,
    command: Option<Seq<char>>,
    there: Set<Seq<char>>,
)
    requires
        forall|p: Seq<char>| #[trigger]
            discovery::answers(exists_at, p, true) <==> there.contains(p),
        forall|p: Seq<char>| #[trigger]
            discovery::answers(exists_at, p, false) <==> !there.contains(p),
        discovery::suggests(exists_at, dirs, pkg, command),
    ensures
        command == if is_there(dirs, "apt-get"@, there) {
            Some("sudo apt-get install -y"@ + " "@ + pkg)
        } else if is_there(dirs, "dnf"@, there) {
            Some("sudo dnf install -y"@ + " "@ + pkg)
        } else if is_there(dirs, "pacman"@, there) {
            Some("sudo pacman -S --noconfirm"@ + " "@ + pkg)
        } else if is_there(dirs, "zypper"@, there) {
            Some("sudo zypper install -y"@ + " "@ + pkg)
        } else if is_there(dirs, "apk"@, there) {
            Some("sudo apk add"@ + " "@ + pkg)
        } else {
            None
        },
{
    assert forall|m: int| 0 <= m < 5 implies #[trigger] discovery::manager_found(exists_at, dirs, m)
        == is_there(dirs, discovery::manager_binaries()[m], there) by {
        managers_agree(exists_at, dirs, m, there);
    }
    assert forall|m: int| 0 <= m < 5 implies #[trigger] discovery::manager_missing(
        exists_at,
        dirs,
        m,
    ) == !is_there(dirs, discovery::manager_binaries()[m], there) by {
        managers_agree(exists_at, dirs, m, there);
    }
    let names = discovery::manager_binaries();
    assert(names[0] == "apt-get"@ && names[1] == "dnf"@ && names[2] == "pacman"@ && names[3]
        == "zypper"@ && names[4] == "apk"@);
    match command {
        Some(c) => {
            let m = choose|m: int|
                0 <= m < 5 && #[trigger] discovery::manager_found(exists_at, dirs, m) && c
                    == discovery::manager_commands()[m] + " "@ + pkg && (forall|k: int|
                    0 <= k < m ==> #[trigger] discovery::manager_missing(exists_at, dirs, k));
            assert(discovery::manager_found(exists_at, dirs, m));
            if m > 0 {
                assert(discovery::manager_missing(exists_at, dirs, 0));
            }
            if m > 1 {
                assert(discovery::manager_missing(exists_at, dirs, 1));
            }
            if m > 2 {
                assert(discovery::manager_missing(exists_at, dirs, 2));
            }
            if m > 3 {
                assert(discovery::manager_missing(exists_at, dirs, 3));
            }
        },
        None => {
            assert(discovery::manager_missing(exists_at, dirs, 0));
            assert(discovery::manager_missing(exists_at, dirs, 1));
            assert(discovery::manager_missing(exists_at, dirs, 2));
            assert(discovery::manager_missing(exists_at, dirs, 3));
            assert(discovery::manager_missing(exists_at, dirs, 4));
        },
    }
}

proof fn managers_agree<F: Fn(&str) -> bool>(
    exists_at: F,
    dirs: Seq<Seq<char>>,
    m: int,
    there: Set<Seq<char>>,
)
    requires
        forall|p: Seq<char>| #[trigger]
            discovery::answers(exists_at, p, true) <==> there.contains(p),
        forall|p: Seq<char>| #[trigger]
            discovery::answers(exists_at, p, false) <==> !there.contains(p),
    ensures
        discovery::manager_found(exists_at, dirs, m) == is_there(
            dirs,
            discovery::manager_binaries()[m],
            there,
        ),
        discovery::manager_missing(exists_at, dirs, m) == !is_there(
            dirs,
            discovery::manager_binaries()[m],
            there,
        ),
{
    let name = discovery::manager_binaries()[m];
    let places = discovery::in_each(dirs, name);
    assert forall|d: int| 0 <= d < dirs.len() implies #[trigger] places[d] == text::path_text(
        dirs[d],
        name,
    ) by {}
    if discovery::manager_found(exists_at, dirs, m) {
        let d = choose|d: int|
            0 <= d < dirs.len() && discovery::answers(
                exists_at,
                #[trigger] discovery::in_each(dirs, name)[d],
                true,
            );
        assert(there.contains(text::path_text(dirs[d], name)));
    }
    if is_there(dirs, name, there) {
        let d = choose|d: int|
            0 <= d < dirs.len() && there.contains(text::path_text(#[trigger] dirs[d], name));
        assert(places[d] == text::path_text(dirs[d], name));
        assert(discovery::answers(exists_at, places[d], true));
        assert(!discovery::answers(exists_at, places[d], false));
    } else {
        assert forall|d: int| 0 <= d < dirs.len() implies discovery::answers(
            exists_at,
            #[trigger] discovery::in_each(dirs, name)[d],
            false,
        ) by {
            assert(!there.contains(text::path_text(dirs[d], name)));
        }
    }
}

/// What is said of a missing binary fits the machine: where a probe says yes about
/// exactly the paths of a set, it suggests the command of the first package manager
/// that is there, if the package is known.
pub proof fn missing_messages_fit_the_machine<F: Fn(&str) -> bool>(
    exists_at: F,
    dirs: Seq<Seq<char>>,
    protocol: Seq<char>,
    message: Seq<char>,
    there: Set<Seq<char>>,
)
    requires
        forall|p: Seq<char>| #[trigger]
            discovery::answers(exists_at, p, true) <==> there.contains(p),
        forall|p: Seq<char>| #[trigger]
            discovery::answers(exists_at, p, false) <==> !there.contains(p),
        discovery::says_missing(exists_at, dirs, protocol, message),
    ensures
        texts::begins_with(message, "no '"@ + protocol + "' pluggable-transport binary found"@),
        protocol == "obfs4"@ && is_there(dirs, "apt-get"@, there) ==> texts::ends_with(
            message,
            "; install it with: "@ + ("sudo apt-get install -y"@ + " "@ + "obfs4proxy"@),
        ),
        protocol == "snowflake"@ && is_there(dirs, "apt-get"@, there) ==> texts::ends_with(
            message,
            "; install it with: "@ + ("sudo apt-get install -y"@ + " "@ + "snowflake-client"@),
        ),
{
    known_transports(protocol);
    match discovery::package_of(protocol) {
        Some(pkg) => {
            let command = choose|command: Option<Seq<char>>|
                #[trigger] discovery::suggests(exists_at, dirs, pkg, command) && message
                    == discovery::missing_text(protocol, command);
            suggestions_fit_the_machine(exists_at, dirs, pkg, command, there);
            missing_binaries_are_named(protocol, command);
        },
        None => {
            missing_binaries_are_named(protocol, None);
        },
    }
}

/// The places that are not always on the search path.
pub proof fn other_places_are_searched()
    ensures
        discovery::extra_dirs() == seq![
            "/usr/bin"@,
            "/usr/local/bin"@,
            "/usr/sbin"@,
            "/usr/lib/obfs4proxy"@,
            "/opt/homebrew/bin"@,
            "/snap/bin"@,
        ],
{
}

/// Each package manager installs with its own command: the commands and the
/// binaries stand at the same places.
pub proof fn managers_have_their_commands()
    ensures
        discovery::manager_binaries() == seq!["apt-get"@, "dnf"@, "pacman"@, "zypper"@, "apk"@],
        discovery::manager_commands() == seq![
            "sudo apt-get install -y"@,
            "sudo dnf install -y"@,
            "sudo pacman -S --noconfirm"@,
            "sudo zypper install -y"@,
            "sudo apk add"@,
        ],
{
}

// ---------------------------------------------------------------------------
// Checks.
// ---------------------------------------------------------------------------
/// The whole milliseconds of a span are the milliseconds that it is long, without
/// what is left of one.
pub proof fn milliseconds_are_whole(s: Span)
    ensures
        ({
            let nanos = 1_000_000_000 * s.whole_secs() + s.subsec_nanos();
            1_000_000 * s.whole_millis() <= nanos < 1_000_000 * (s.whole_millis() + 1)
        }),
{
}

/// The error of a check is none exactly if a connection was made; else it ends with
/// what went wrong.
pub proof fn probe_errors_read_back(outcome: ProbeOutcome, timeout: Span)
    ensures
        bridges::probe_error(outcome, timeout) is None <==> outcome is Connected,
        match outcome {
            ProbeOutcome::NoStateDir { error } => texts::between(
                bridges::probe_error(outcome, timeout)->Some_0,
                "failed to create temp state dir: "@,
                seq![],
            ) == Some(error@),
            ProbeOutcome::NoCacheDir { error } => texts::between(
                bridges::probe_error(outcome, timeout)->Some_0,
                "failed to create temp cache dir: "@,
                seq![],
            ) == Some(error@),
            ProbeOutcome::NoConfig { error } => bridges::probe_error(outcome, timeout) == Some(
                error@,
            ),
            ProbeOutcome::Failed { error, .. } => bridges::probe_error(outcome, timeout) == Some(
                error@,
            ),
            ProbeOutcome::TimedOut => texts::between(
                bridges::probe_error(outcome, timeout)->Some_0,
                "health check timed out after "@,
                seq![],
            ) == Some(timeout.text()),
            ProbeOutcome::Connected { .. } => true,
        },
{
    match outcome {
        ProbeOutcome::NoStateDir { error } => {
            texts::between_is_found("failed to create temp state dir: "@, error@, seq![]);
            assert("failed to create temp state dir: "@ + error@ + seq![]
                =~= "failed to create temp state dir: "@ + error@);
        },
        ProbeOutcome::NoCacheDir { error } => {
            texts::between_is_found("failed to create temp cache dir: "@, error@, seq![]);
            assert("failed to create temp cache dir: "@ + error@ + seq![]
                =~= "failed to create temp cache dir: "@ + error@);
        },
        ProbeOutcome::TimedOut => {
            texts::between_is_found("health check timed out after "@, timeout.text(), seq![]);
            assert("health check timed out after "@ + timeout.text() + seq![]
                =~= "health check timed out after "@ + timeout.text());
        },
        _ => {},
    }
}

/// The latency of a check that began is the time until its end; of one that did
/// not begin it is nothing.
pub proof fn probe_latencies_read_back(outcome: ProbeOutcome, timeout: Span, latency: Span)
    requires
        bridges::probe_latency(outcome, timeout, latency),
    ensures
        outcome matches ProbeOutcome::Connected { elapsed } ==> latency == elapsed,
        outcome matches ProbeOutcome::Failed { elapsed, .. } ==> latency == elapsed,
        outcome is TimedOut ==> latency == timeout,
        outcome is NoStateDir || outcome is NoCacheDir || outcome is NoConfig
            ==> latency.whole_millis() == 0,
{
}

/// A health check is judged a success exactly if a connection was made, and then
/// there is no error; it is about the bridge at its place.
pub proof fn checks_are_judged(
    order: Seq<Seq<char>>,
    idx: usize,
    outcome: ProbeOutcome,
    timeout: Span,
    r: HealthResult,
)
    requires
        bridges::judged(order, idx, outcome, timeout, r),
    ensures
        r.success <==> outcome is Connected,
        r.error is None <==> outcome is Connected,
        idx < order.len() ==> r.candidate_line@ == order[idx as int],
        outcome matches ProbeOutcome::Connected { elapsed } ==> r.latency == elapsed,
        outcome matches ProbeOutcome::Failed { elapsed, error } ==> r.latency == elapsed && (
        r.error matches Some(e) && e@ == error@),
        outcome matches ProbeOutcome::NoConfig { error } ==> (r.error matches Some(e) && e@
            == error@),
        outcome is TimedOut ==> r.latency == timeout,
        outcome is NoStateDir || outcome is NoCacheDir || outcome is NoConfig
            ==> r.latency.whole_millis() == 0,
{
    probe_errors_read_back(outcome, timeout);
}

/// The message on a new bridge that failed its check ends with why.
pub proof fn new_bridge_errors_read_back(result: HealthResult)
    ensures
        texts::begins_with(
            coordinator::new_bridge_error(result),
            "new bridge failed its health check: "@,
        ),
        coordinator::new_bridge_error(result).skip(
            "new bridge failed its health check: "@.len() as int,
        ) == match result.error {
            Some(e) => e@,
            None => "unknown error"@,
        },
{
    let why = match result.error {
        Some(e) => e@,
        None => "unknown error"@,
    };
    texts::behind_is_found("new bridge failed its health check: "@, why);
}

/// The latency that is recorded is that of the check, in whole milliseconds.
pub proof fn recorded_latency_is_measured(result: HealthResult)
    requires
        result.latency.whole_millis() <= u64::MAX,
    ensures
        ({
            let nanos = 1_000_000_000 * result.latency.whole_secs()
                + result.latency.subsec_nanos();
            let ms = coordinator::recorded_latency(result);
            1_000_000 * ms <= nanos < 1_000_000 * (ms + 1)
        }),
{
}

// ---------------------------------------------------------------------------
// Decisions.
// ---------------------------------------------------------------------------
/// After a search, a bridge other than the checked one is switched to if it was
/// found; the checked one is kept if it was found; else nothing is done.
pub proof fn searches_are_acted_on(checked: usize, found: Option<usize>)
    ensures
        coordinator::scan_leads_to(checked, found) == AfterScan::Keep <==> found == Some(checked),
        coordinator::scan_leads_to(checked, found) == AfterScan::NoneHealthy <==> found is None,
        found matches Some(i) ==> i != checked ==> coordinator::scan_leads_to(checked, found)
            == AfterScan::Bootstrap(i),
{
}

/// What each event does to the count of failed checks and to the active bridge.
pub proof fn events_count_and_switch(st: Standing, e: Event)
    ensures
        ({
            let after = coordinator::standing_after(st, e);
            match e {
                Event::Checked { success } => after.active == st.active && after.failures
                    == if success {
                    0
                } else {
                    st.failures + 1
                },
                Event::Searched { checked, found } => after.active == st.active && after.failures
                    == if found == Some(checked) {
                    0
                } else {
                    st.failures
                },
                Event::Switched { idx, bootstrapped } => if bootstrapped {
                    after.active == Some(idx) && after.failures == 0
                } else {
                    after == st
                },
                Event::Added { idx } => after.active == Some(idx) && after.failures == 0,
            }
        }),
{
}

/// A status that reports a new active bridge names it and its line, counts one
/// switch more and no failures, and keeps everything else.
pub proof fn switches_are_reported(
    before: HealthStatus,
    after: HealthStatus,
    idx: usize,
    line: Option<Seq<char>>,
    now: u128,
)
    requires
        before.total_switches < u64::MAX,
        coordinator::activated(before, after, idx, line, now),
    ensures
        after.active_bridge_index == Some(idx),
        text::opt_text(after.active_bridge_line) == line,
        after.last_switch_at == Some(now),
        after.total_switches == before.total_switches + 1,
        after.consecutive_failures == 0,
        after.last_check_at == before.last_check_at,
        after.history == before.history,
        after.candidates == before.candidates,
        after.socks_connections_total == before.socks_connections_total,
        after.socks_connections_active == before.socks_connections_active,
        after.transparent_enabled == before.transparent_enabled,
        after.last_error == before.last_error,
        after.stream_events == before.stream_events,
{
}

/// A status that reports a check holds the time, the failures in a row and one
/// sample more, and keeps everything else but the rows.
pub proof fn checks_are_reported(
    before: HealthStatus,
    after: HealthStatus,
    idx: usize,
    result: HealthResult,
    failures: u32,
    now: u128,
)
    requires
        coordinator::check_reported(before, after, idx, result, failures, now),
    ensures
        after.last_check_at == Some(now),
        after.consecutive_failures == failures,
        after.history@.len() == before.history@.len() + 1,
        after.history@.drop_last() == before.history@,
        after.history@.last().at == now,
        after.history@.last().success == result.success,
        after.history@.last().latency_ms == coordinator::recorded_latency(result),
        exists|k: int|
            0 <= k < after.rows().len() && (#[trigger] after.rows()[k]).index == idx
                && after.rows()[k].line == result.candidate_line@
                && after.rows()[k].last_success == Some(result.success),
        after.active_bridge_index == before.active_bridge_index,
        after.active_bridge_line == before.active_bridge_line,
        after.last_switch_at == before.last_switch_at,
        after.total_switches == before.total_switches,
        after.socks_connections_total == before.socks_connections_total,
        after.socks_connections_active == before.socks_connections_active,
        after.transparent_enabled == before.transparent_enabled,
        after.last_error == before.last_error,
        after.stream_events == before.stream_events,
{
    assert(after.history@.drop_last() =~= before.history@);
    let ms = coordinator::recorded_latency(result);
    telemetry::recorded_result_is_found(
        before.rows(),
        idx as nat,
        result.candidate_line@,
        result.success,
        ms,
    );
    let k = telemetry::find_row(before.rows(), idx as nat) as int;
    assert(after.rows()[k].index == idx);
}

/// A status that reports the result of another bridge's check shows it in that
/// bridge's row, and keeps everything else.
pub proof fn results_are_reported(
    before: HealthStatus,
    after: HealthStatus,
    idx: usize,
    result: HealthResult,
)
    requires
        coordinator::result_reported(before, after, idx, result),
    ensures
        exists|k: int|
            0 <= k < after.rows().len() && (#[trigger] after.rows()[k]).index == idx
                && after.rows()[k].line == result.candidate_line@ && after.rows()[k].last_success
                == Some(result.success),
        (HealthStatus { candidates: before.candidates, ..after }) == before,
{
    let ms = coordinator::recorded_latency(result);
    telemetry::recorded_result_is_found(
        before.rows(),
        idx as nat,
        result.candidate_line@,
        result.success,
        ms,
    );
    let k = telemetry::find_row(before.rows(), idx as nat) as int;
    assert(after.rows()[k].index == idx);
}

/// A search that finds the active bridge healthy again ends the row of failures;
/// any other leaves the status as it is.
pub proof fn searches_are_reported(before: HealthStatus)
    ensures
        coordinator::search_reported(before, true).consecutive_failures == 0,
        (HealthStatus {
            consecutive_failures: before.consecutive_failures,
            ..coordinator::search_reported(before, true)
        }) == before,
        coordinator::search_reported(before, false) == before,
{
}

/// What the monitor reports of a check is its time and the failures in a row, and
/// nothing else.
pub proof fn monitored_checks_are_reported(before: HealthStatus, failures: u32, now: u128)
    ensures
        ({
            let after = monitor::checked(before, failures, now);
            &&& after.last_check_at == Some(now)
            &&& after.consecutive_failures == failures
            &&& (HealthStatus {
                last_check_at: before.last_check_at,
                consecutive_failures: before.consecutive_failures,
                ..after
            }) == before
        }),
{
}

/// What comes of something in the background is reported only if it is an error,
/// which stays as the last one.
pub proof fn background_errors_are_reported(
    before: HealthStatus,
    after: HealthStatus,
    result: Result<(), String>,
    now: u128,
)
    requires
        dashboard::background_reported(before, after, result, now),
    ensures
        match result {
            Ok(_) => after == before,
            Err(e) => (after.last_error matches Some(r) && r.message@ == e@ && r.at == now) && (
            HealthStatus { last_error: before.last_error, ..after }) == before,
        },
{
}

/// A status that reports an error holds it with its time, and keeps everything
/// else.
pub proof fn errors_are_reported(
    before: HealthStatus,
    after: HealthStatus,
    error: Seq<char>,
    now: u128,
)
    requires
        coordinator::reported(before, after, error, now),
    ensures
        after.last_error matches Some(r) && r.message@ == error && r.at == now,
        after.active_bridge_index == before.active_bridge_index,
        after.active_bridge_line == before.active_bridge_line,
        after.last_check_at == before.last_check_at,
        after.last_switch_at == before.last_switch_at,
        after.consecutive_failures == before.consecutive_failures,
        after.total_switches == before.total_switches,
        after.history == before.history,
        after.candidates == before.candidates,
        after.socks_connections_total == before.socks_connections_total,
        after.socks_connections_active == before.socks_connections_active,
        after.transparent_enabled == before.transparent_enabled,
        after.stream_events == before.stream_events,
{
}

/// A SOCKS connection counts once in all and, while it lasts, once among the active
/// ones.
pub proof fn connections_are_counted(s: HealthStatus)
    requires
        s.socks_connections_total < u64::MAX,
        s.socks_connections_active < u64::MAX,
    ensures
        telemetry::opened(s).socks_connections_active == s.socks_connections_active + 1,
        telemetry::opened(s).socks_connections_total == s.socks_connections_total + 1,
        telemetry::closed_one(telemetry::opened(s)) == (HealthStatus {
            socks_connections_total: (s.socks_connections_total + 1) as u64,
            ..s
        }),
{
}

// ---------------------------------------------------------------------------
// Rows.
// ---------------------------------------------------------------------------
/// The result of a check replaces the bridge's row, wherever that stands; no other
/// row changes, and none comes or goes.
pub proof fn results_replace_their_row(
    rows: Seq<Row>,
    k: int,
    line: Seq<char>,
    success: bool,
    latency_ms: u64,
)
    requires
        telemetry::distinct_rows(rows),
        0 <= k < rows.len(),
    ensures
        ({
            let after = telemetry::recorded(rows, rows[k].index, line, success, latency_ms);
            &&& after.len() == rows.len()
            &&& after[k].index == rows[k].index
            &&& after[k].line == line
            &&& after[k].last_success == Some(success)
            &&& after[k].last_latency_ms == Some(latency_ms)
            &&& forall|i: int| 0 <= i < rows.len() && i != k ==> #[trigger] after[i] == rows[i]
        }),
{
    let index = rows[k].index;
    telemetry::find_row_bounds(rows, index);
    let at = telemetry::find_row(rows, index) as int;
    if at < k {
        assert(rows[at].index != rows[k].index);
    }
    if at > k {
        assert(rows[k].index != index);
    }
}

/// The result of a check of a bridge without a row is added behind the others.
pub proof fn results_of_new_bridges_are_added(
    rows: Seq<Row>,
    index: nat,
    line: Seq<char>,
    success: bool,
    latency_ms: u64,
)
    requires
        forall|i: int| 0 <= i < rows.len() ==> (#[trigger] rows[i]).index != index,
    ensures
        telemetry::recorded(rows, index, line, success, latency_ms) == rows.push(
            Row {
                index,
                line,
                last_success: Some(success),
                last_latency_ms: Some(latency_ms),
            },
        ),
{
    telemetry::find_row_bounds(rows, index);
    let at = telemetry::find_row(rows, index) as int;
    if at < rows.len() {
        assert(rows[at].index != index);
    }
}

/// A row shows what is known of its bridge.
pub proof fn rows_show_their_bridge(list: Seq<CandidateStatus>, i: int)
    requires
        0 <= i < list.len(),
    ensures
        telemetry::rows_of(list).len() == list.len(),
        telemetry::rows_of(list)[i].index == list[i].index,
        telemetry::rows_of(list)[i].line == list[i].line@,
        telemetry::rows_of(list)[i].last_success == list[i].last_success,
        telemetry::rows_of(list)[i].last_latency_ms == list[i].last_latency_ms,
{
}

/// Bridges that were never checked are listed as they are configured, without a
/// result.
pub proof fn unchecked_bridges_are_listed(candidates: Seq<(usize, String)>, i: int)
    requires
        0 <= i < candidates.len(),
    ensures
        ({
            let rows = telemetry::unchecked_rows(candidates);
            &&& rows.len() == candidates.len()
            &&& rows[i].index == candidates[i].0
            &&& rows[i].line == candidates[i].1@
            &&& rows[i].last_success is None
            &&& rows[i].last_latency_ms is None
        }),
{
}

} // verus!
