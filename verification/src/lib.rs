//! Discovery of locally listening network ports and termination of their
//! owning processes.
//!
//! The library shells out (through the injectable [`command::CommandExecutor`]
//! trait) to platform-native diagnostic tools, parses their text output into
//! canonical `(process_name, port, pid)` records, removes duplicate records,
//! and dispatches the platform termination command for a PID. All parsing,
//! deduplication and dispatch logic is verified; running an external program
//! is left to the trait's implementor.

pub mod command;
pub mod filter;
pub mod kill;
pub mod os;
pub mod port;
pub mod port_info;
pub mod remove_duplicate;
pub mod text;

use vstd::prelude::*;

use command::CommandExecutor;
use os::{HostOs, OS};
use remove_duplicate::{no_dups, remove_duplicates};

verus! {

/// Lists the open listening ports of the host: runs the platform diagnostic
/// command through `executor`, parses its output with the parser that
/// matches the host, and removes duplicate records, so that no two records
/// of the result are equal. On a host with no known diagnostic tool the
/// list is empty.
pub fn list_open_ports<E: CommandExecutor>(executor: &E, host: HostOs) -> (r: Vec<
    (String, String, String),
>)
    ensures
        no_dups(r.deep_view()),
        host is Other ==> r@.len() == 0,
{
    match port::get_open_ports(executor, host) {
        OS::Windows(output) => remove_duplicates(
            port::parsing_window_netstat(output.as_str(), executor),
        ),
        OS::MacOS(output) => remove_duplicates(port::parsing_mac_lsof(output.as_str())),
        OS::Unsupported => {
            let r: Vec<(String, String, String)> = Vec::new();
            r
        },
    }
}

} // verus!
