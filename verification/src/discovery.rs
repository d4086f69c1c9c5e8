//! Local discovery of pluggable-transport binaries, so that known transports
//! work without naming their binary, and a missing one is reported with what
//! to install.
//!
//! The functions are told how to probe the file system.
use crate::text;
use vstd::prelude::*;
use vstd::string::*;

verus! {

/// The binaries of a transport, in order of preference.
pub open spec fn binary_names(protocol: Seq<char>) -> Seq<Seq<char>> {
    if protocol == "obfs4"@ {
        seq!["obfs4proxy"@, "lyrebird"@]
    } else if protocol == "snowflake"@ {
        seq!["snowflake-client"@]
    } else if protocol == "webtunnel"@ {
        seq!["webtunnel-client"@]
    } else {
        seq![]
    }
}

/// The binaries of a transport, in order of preference.
pub fn candidate_binary_names(protocol: &str) -> (names: Vec<String>)
    ensures
        text::texts(names@) == binary_names(protocol@),
{
    let mut names: Vec<String> = Vec::new();
    if text::same(protocol, "obfs4") {
        names.push("obfs4proxy".to_owned());
        names.push("lyrebird".to_owned());
    } else if text::same(protocol, "snowflake") {
        names.push("snowflake-client".to_owned());
    } else if text::same(protocol, "webtunnel") {
        names.push("webtunnel-client".to_owned());
    }
    assert(text::texts(names@) == binary_names(protocol@));
    names
}

/// Install locations that are not always on the search path.
pub open spec fn extra_dirs() -> Seq<Seq<char>> {
    seq![
        "/usr/bin"@,
        "/usr/local/bin"@,
        "/usr/sbin"@,
        "/usr/lib/obfs4proxy"@,
        "/opt/homebrew/bin"@,
        "/snap/bin"@,
    ]
}

/// A file in each of the directories, in order.
pub open spec fn in_each(dirs: Seq<Seq<char>>, name: Seq<char>) -> Seq<Seq<char>> {
    dirs.map_values(|d: Seq<char>| text::path_text(d, name))
}

/// Where the files are looked for: the first in every directory, then the
/// second, and so on.
pub open spec fn search_order(names: Seq<Seq<char>>, dirs: Seq<Seq<char>>) -> Seq<Seq<char>>
    decreases names.len(),
{
    if names.len() == 0 {
        seq![]
    } else {
        search_order(names.drop_last(), dirs) + in_each(dirs, names.last())
    }
}

/// What is known of a file.
#[derive(Debug, Clone, Copy)]
pub struct FileMeta {
    /// Whether it is a regular file.
    pub is_file: bool,
    /// Its mode bits.
    pub mode: u32,
}

/// Whether a file is a regular file that someone may execute; `None` is a file
/// that does not exist or cannot be looked at.
pub open spec fn executable(meta: Option<FileMeta>) -> bool {
    meta matches Some(m) && m.is_file && m.mode & 0o111 != 0
}

/// Whether a file is a regular file that someone may execute.
pub fn is_executable(meta: Option<FileMeta>) -> (r: bool)
    ensures
        r == executable(meta),
{
    match meta {
        Some(m) => m.is_file && m.mode & 0o111 != 0,
        None => false,
    }
}

/// Whether a probe may answer `answer` about a path.
pub open spec fn answers<F: Fn(&str) -> bool>(probe: F, path: Seq<char>, answer: bool) -> bool {
    exists|p: &str| p@ == path && #[trigger] call_ensures(probe, (p,), answer)
}

/// Whether a probe can be asked about every path.
pub open spec fn askable<F: Fn(&str) -> bool>(probe: F) -> bool {
    forall|p: &str| #[trigger] call_requires(probe, (p,))
}

/// Whether `found` is what a search gives: the first path about which the
/// probe says yes, none if it says no about each.
pub open spec fn first_found<F: Fn(&str) -> bool>(
    probe: F,
    paths: Seq<Seq<char>>,
    found: Option<Seq<char>>,
) -> bool {
    match found {
        Some(path) => exists|k: int|
            #![trigger paths[k]]
            0 <= k < paths.len() && paths[k] == path && answers(probe, paths[k], true) && (forall|
                j: int,
            |
                0 <= j < k ==> answers(probe, #[trigger] paths[j], false)),
        None => forall|j: int| 0 <= j < paths.len() ==> answers(probe, #[trigger] paths[j], false),
    }
}

/// A search that can be told which paths exist has one outcome: two outcomes
/// that fit the same answers are the same.
pub proof fn search_is_determined<F: Fn(&str) -> bool>(
    probe: F,
    paths: Seq<Seq<char>>,
    a: Option<Seq<char>>,
    b: Option<Seq<char>>,
)
    requires
        forall|p: Seq<char>| !(#[trigger] answers(probe, p, true) && answers(probe, p, false)),
        first_found(probe, paths, a),
        first_found(probe, paths, b),
    ensures
        a == b,
{
    match a {
        Some(x) => {
            let k = choose|k: int|
                #![trigger paths[k]]
                0 <= k < paths.len() && paths[k] == x && answers(probe, paths[k], true) && (forall|
                    j: int,
                |
                    0 <= j < k ==> answers(probe, #[trigger] paths[j], false));
            assert(answers(probe, paths[k], true));
            match b {
                Some(y) => {
                    let m = choose|k: int|
                        #![trigger paths[k]]
                        0 <= k < paths.len() && paths[k] == y && answers(probe, paths[k], true) && (
                        forall|j: int| 0 <= j < k ==> answers(probe, #[trigger] paths[j], false));
                    assert(answers(probe, paths[m], true));
                    if k < m {
                        assert(answers(probe, paths[k], false));
                    }
                    if m < k {
                        assert(answers(probe, paths[m], false));
                    }
                },
                None => {
                    assert(answers(probe, paths[k], false));
                },
            }
        },
        None => {
            if let Some(y) = b {
                let m = choose|k: int|
                    #![trigger paths[k]]
                    0 <= k < paths.len() && paths[k] == y && answers(probe, paths[k], true) && (
                    forall|j: int| 0 <= j < k ==> answers(probe, #[trigger] paths[j], false));
                assert(answers(probe, paths[m], true));
                assert(answers(probe, paths[m], false));
            }
        },
    }
}

fn append_in_each(out: &mut Vec<String>, dirs: &Vec<String>, name: &str)
    ensures
        text::texts(final(out)@) == text::texts(old(out)@) + in_each(text::texts(dirs@), name@),
{
    let ghost before = text::texts(out@);
    let ghost all = text::texts(dirs@);
    let mut i: usize = 0;
    while i < dirs.len()
        invariant
            i <= dirs@.len(),
            all == text::texts(dirs@),
            text::texts(out@) == before + in_each(all.take(i as int), name@),
        decreases dirs@.len() - i,
    {
        let ghost so_far = text::texts(out@);
        let path = text::path_join(dirs[i].as_str(), name);
        out.push(path);
        proof {
            assert(text::texts(out@) == so_far.push(path@));
            assert(in_each(all.take(i + 1), name@) == in_each(all.take(i as int), name@).push(
                path@,
            ));
        }
        i = i + 1;
    }
    assert(all.take(i as int) == all);
}

/// Everywhere that the binaries of a transport are looked for: in the
/// directories of the search path and in [`extra_dirs`].
pub fn search_paths(protocol: &str, path_dirs: &Vec<String>) -> (paths: Vec<String>)
    ensures
        text::texts(paths@) == search_order(
            binary_names(protocol@),
            text::texts(path_dirs@) + extra_dirs(),
        ),
{
    let names = candidate_binary_names(protocol);
    let mut dirs: Vec<String> = Vec::new();
    let mut i: usize = 0;
    while i < path_dirs.len()
        invariant
            i <= path_dirs@.len(),
            text::texts(dirs@) == text::texts(path_dirs@).take(i as int),
        decreases path_dirs@.len() - i,
    {
        let ghost before = text::texts(dirs@);
        dirs.push(path_dirs[i].clone());
        assert(text::texts(dirs@) == before.push(path_dirs@[i as int]@));
        i = i + 1;
    }
    let ghost own = text::texts(path_dirs@);
    assert(own.take(i as int) == own);
    dirs.push("/usr/bin".to_owned());
    dirs.push("/usr/local/bin".to_owned());
    dirs.push("/usr/sbin".to_owned());
    dirs.push("/usr/lib/obfs4proxy".to_owned());
    dirs.push("/opt/homebrew/bin".to_owned());
    dirs.push("/snap/bin".to_owned());
    assert(text::texts(dirs@) == own + extra_dirs());
    let ghost all = text::texts(names@);
    let mut paths: Vec<String> = Vec::new();
    let mut k: usize = 0;
    while k < names.len()
        invariant
            k <= names@.len(),
            all == text::texts(names@),
            text::texts(dirs@) == own + extra_dirs(),
            text::texts(paths@) == search_order(all.take(k as int), own + extra_dirs()),
        decreases names@.len() - k,
    {
        append_in_each(&mut paths, &dirs, names[k].as_str());
        assert(all.take(k + 1).drop_last() == all.take(k as int));
        k = k + 1;
    }
    assert(all.take(k as int) == all);
    paths
}

/// Searches the directories of the search path and a handful of common install
/// locations for a binary of a transport. For an unknown transport there is
/// nothing to look for, and nothing is probed.
pub fn locate_transport_binary<F: Fn(&str) -> bool>(
    protocol: &str,
    path_dirs: &Vec<String>,
    is_executable: F,
) -> (found: Option<String>)
    requires
        askable(is_executable),
    ensures
        first_found(
            is_executable,
            search_order(binary_names(protocol@), text::texts(path_dirs@) + extra_dirs()),
            text::opt_text(found),
        ),
        binary_names(protocol@).len() == 0 ==> found is None,
{
    let paths = search_paths(protocol, path_dirs);
    let ghost all = text::texts(paths@);
    let mut i: usize = 0;
    while i < paths.len()
        invariant
            i <= paths@.len(),
            all == text::texts(paths@),
            all == search_order(
                binary_names(protocol@),
                text::texts(path_dirs@) + extra_dirs(),
            ),
            askable(is_executable),
            forall|j: int| 0 <= j < i ==> answers(is_executable, #[trigger] all[j], false),
        decreases paths@.len() - i,
    {
        let path: &str = paths[i].as_str();
        if is_executable(path) {
            assert(all[i as int] == path@);
            assert(answers(is_executable, all[i as int], true));
            return Some(paths[i].clone());
        }
        assert(answers(is_executable, all[i as int], false));
        i = i + 1;
    }
    None
}

// ---------------------------------------------------------------------------
// What to install.
// ---------------------------------------------------------------------------
/// The package that is believed to provide a transport's binary.
pub open spec fn package_of(protocol: Seq<char>) -> Option<Seq<char>> {
    if protocol == "obfs4"@ {
        Some("obfs4proxy"@)
    } else if protocol == "snowflake"@ {
        Some("snowflake-client"@)
    } else {
        None
    }
}

/// The package that is believed to provide a transport's binary.
pub fn package_name(protocol: &str) -> (pkg: Option<&'static str>)
    ensures
        match pkg {
            Some(p) => package_of(protocol@) == Some(p@),
            None => package_of(protocol@) is None,
        },
{
    if text::same(protocol, "obfs4") {
        Some("obfs4proxy")
    } else if text::same(protocol, "snowflake") {
        Some("snowflake-client")
    } else {
        None
    }
}

/// The binaries of the package managers.
pub open spec fn manager_binaries() -> Seq<Seq<char>> {
    seq!["apt-get"@, "dnf"@, "pacman"@, "zypper"@, "apk"@]
}

/// What each package manager installs a package with.
pub open spec fn manager_commands() -> Seq<Seq<char>> {
    seq![
        "sudo apt-get install -y"@,
        "sudo dnf install -y"@,
        "sudo pacman -S --noconfirm"@,
        "sudo zypper install -y"@,
        "sudo apk add"@,
    ]
}

/// Whether a package manager is found in one of the directories.
pub open spec fn manager_found<F: Fn(&str) -> bool>(
    exists_at: F,
    dirs: Seq<Seq<char>>,
    m: int,
) -> bool {
    exists|d: int|
        0 <= d < dirs.len() && answers(
            exists_at,
            #[trigger] in_each(dirs, manager_binaries()[m])[d],
            true,
        )
}

/// Whether a package manager is found in none of the directories.
pub open spec fn manager_missing<F: Fn(&str) -> bool>(
    exists_at: F,
    dirs: Seq<Seq<char>>,
    m: int,
) -> bool {
    forall|d: int|
        0 <= d < dirs.len() ==> answers(
            exists_at,
            #[trigger] in_each(dirs, manager_binaries()[m])[d],
            false,
        )
}

/// Whether `command` is what is suggested: that of the first package manager
/// that is found, none if none is found.
pub open spec fn suggests<F: Fn(&str) -> bool>(
    exists_at: F,
    dirs: Seq<Seq<char>>,
    pkg: Seq<char>,
    command: Option<Seq<char>>,
) -> bool {
    match command {
        Some(c) => exists|m: int|
            0 <= m < 5 && #[trigger] manager_found(exists_at, dirs, m) && c
                == manager_commands()[m] + " "@ + pkg && (forall|k: int|
                0 <= k < m ==> #[trigger] manager_missing(exists_at, dirs, k)),
        None => forall|m: int| 0 <= m < 5 ==> #[trigger] manager_missing(exists_at, dirs, m),
    }
}

fn manager_at(m: usize) -> (entry: (&'static str, &'static str))
    requires
        m < 5,
    ensures
        entry.0@ == manager_binaries()[m as int],
        entry.1@ == manager_commands()[m as int],
{
    if m == 0 {
        ("apt-get", "sudo apt-get install -y")
    } else if m == 1 {
        ("dnf", "sudo dnf install -y")
    } else if m == 2 {
        ("pacman", "sudo pacman -S --noconfirm")
    } else if m == 3 {
        ("zypper", "sudo zypper install -y")
    } else {
        ("apk", "sudo apk add")
    }
}

/// A command to suggest for installing a package, from which package managers
/// there are in the directories of the search path.
pub fn suggest_install_command<F: Fn(&str) -> bool>(
    pkg: &str,
    path_dirs: &Vec<String>,
    exists_at: F,
) -> (command: Option<String>)
    requires
        askable(exists_at),
    ensures
        suggests(exists_at, text::texts(path_dirs@), pkg@, text::opt_text(command)),
{
    let ghost dirs = text::texts(path_dirs@);
    let mut m: usize = 0;
    while m < 5
        invariant
            m <= 5,
            dirs == text::texts(path_dirs@),
            askable(exists_at),
            forall|k: int| 0 <= k < m ==> #[trigger] manager_missing(exists_at, dirs, k),
        decreases 5 - m,
    {
        let entry = manager_at(m);
        let ghost places = in_each(dirs, manager_binaries()[m as int]);
        let mut d: usize = 0;
        while d < path_dirs.len()
            invariant
                m < 5,
                d <= path_dirs@.len(),
                dirs == text::texts(path_dirs@),
                askable(exists_at),
                entry.0@ == manager_binaries()[m as int],
                entry.1@ == manager_commands()[m as int],
                places == in_each(dirs, manager_binaries()[m as int]),
                forall|k: int| 0 <= k < m ==> #[trigger] manager_missing(exists_at, dirs, k),
                forall|k: int| 0 <= k < d ==> answers(exists_at, #[trigger] places[k], false),
            decreases path_dirs@.len() - d,
        {
            let place = text::path_join(path_dirs[d].as_str(), entry.0);
            assert(places[d as int] == place@);
            let p: &str = place.as_str();
            if exists_at(p) {
                assert(answers(exists_at, places[d as int], true));
                assert(manager_found(exists_at, dirs, m as int));
                let mut command = entry.1.to_owned();
                command.append(" ");
                command.append(pkg);
                return Some(command);
            }
            assert(answers(exists_at, places[d as int], false));
            d = d + 1;
        }
        assert(manager_missing(exists_at, dirs, m as int));
        m = m + 1;
    }
    None
}

/// The message on a missing binary, given what to suggest.
pub open spec fn missing_text(protocol: Seq<char>, command: Option<Seq<char>>) -> Seq<char> {
    match package_of(protocol) {
        Some(pkg) => match command {
            Some(c) => "no '"@ + protocol
                + "' pluggable-transport binary found; install it with: "@ + c,
            None => "no '"@ + protocol + "' pluggable-transport binary found; install the '"@ + pkg
                + "' package for your distro, or pass --pt "@ + protocol + "=<path>"@,
        },
        None => "no '"@ + protocol
            + "' pluggable-transport binary found, and anonet doesn't know which package provides it; pass --pt "@
            + protocol + "=<path> to point at it manually"@,
    }
}

/// The message on a missing binary, given what to suggest.
pub fn missing_message(protocol: &str, command: Option<String>) -> (s: String)
    ensures
        s@ == missing_text(protocol@, text::opt_text(command)),
{
    let mut s = "no '".to_owned();
    s.append(protocol);
    match package_name(protocol) {
        Some(pkg) => match command {
            Some(c) => {
                s.append("' pluggable-transport binary found; install it with: ");
                s.append(c.as_str());
                s
            },
            None => {
                s.append("' pluggable-transport binary found; install the '");
                s.append(pkg);
                s.append("' package for your distro, or pass --pt ");
                s.append(protocol);
                s.append("=<path>");
                s
            },
        },
        None => {
            s.append(
                "' pluggable-transport binary found, and anonet doesn't know which package provides it; pass --pt ",
            );
            s.append(protocol);
            s.append("=<path> to point at it manually");
            s
        },
    }
}

/// Whether `message` is what is said of a missing binary.
pub open spec fn says_missing<F: Fn(&str) -> bool>(
    exists_at: F,
    dirs: Seq<Seq<char>>,
    protocol: Seq<char>,
    message: Seq<char>,
) -> bool {
    match package_of(protocol) {
        Some(pkg) => exists|command: Option<Seq<char>>|
            #[trigger] suggests(exists_at, dirs, pkg, command) && message == missing_text(
                protocol,
                command,
            ),
        None => message == missing_text(protocol, None),
    }
}

/// A one-line message for when a transport's binary is found nowhere, which
/// names a concrete fix.
pub fn missing_transport_message<F: Fn(&str) -> bool>(
    protocol: &str,
    path_dirs: &Vec<String>,
    exists_at: F,
) -> (s: String)
    requires
        askable(exists_at),
    ensures
        says_missing(exists_at, text::texts(path_dirs@), protocol@, s@),
{
    match package_name(protocol) {
        Some(pkg) => {
            let command = suggest_install_command(pkg, path_dirs, exists_at);
            let ghost suggested = text::opt_text(command);
            let s = missing_message(protocol, command);
            assert(suggests(exists_at, text::texts(path_dirs@), pkg@, suggested));
            s
        },
        None => missing_message(protocol, None),
    }
}

} // verus!
