//! Where anonet keeps its files.
use crate::text;
use vstd::prelude::*;

verus! {

/// A file in anonet's directory under the user's data directory; under the
/// current directory if there is none.
pub open spec fn data_file_text(data_dir: Option<Seq<char>>, name: Seq<char>) -> Seq<char> {
    let base = match data_dir {
        Some(d) => d,
        None => "."@,
    };
    text::path_text(text::path_text(base, "anonet"@), name)
}

/// A file in anonet's directory.
pub fn data_file(data_dir: &Option<String>, name: &str) -> (path: String)
    ensures
        path@ == data_file_text(text::opt_text(*data_dir), name@),
{
    let dir = match data_dir {
        Some(d) => text::path_join(d.as_str(), "anonet"),
        None => text::path_join(".", "anonet"),
    };
    text::path_join(dir.as_str(), name)
}

/// The log of the dashboard.
pub fn anonet_log_path(data_dir: &Option<String>) -> (path: String)
    ensures
        path@ == data_file_text(text::opt_text(*data_dir), "anonet.log"@),
{
    data_file(data_dir, "anonet.log")
}

/// The status socket.
pub fn socket_path(data_dir: &Option<String>) -> (path: String)
    ensures
        path@ == data_file_text(text::opt_text(*data_dir), "anonet.sock"@),
{
    data_file(data_dir, "anonet.sock")
}

/// The file that holds the running instance's process.
pub fn pid_path(data_dir: &Option<String>) -> (path: String)
    ensures
        path@ == data_file_text(text::opt_text(*data_dir), "anonet.pid"@),
{
    data_file(data_dir, "anonet.pid")
}

} // verus!
