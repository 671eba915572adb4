//! The process-termination dispatcher: picks the platform termination
//! command for a PID, runs it through the executor, and reports whether the
//! command could be run at all.

use vstd::prelude::*;
use vstd::string::StrSliceExecFns;

use crate::command::CommandExecutor;
use crate::os::HostOs;

verus! {

/// The platform termination command for `pid`: program and argument list,
/// or `None` on a host with no known termination tool.
pub open spec fn spec_kill_command(host: HostOs, pid: Seq<char>) -> Option<
    (Seq<char>, Seq<Seq<char>>),
> {
    match host {
        HostOs::Windows => Some(("taskkill"@, seq!["/PID"@, pid, "/F"@])),
        HostOs::MacOs => Some(("kill"@, seq!["-9"@, pid])),
        HostOs::Linux => Some(("kill"@, seq!["-9"@, pid])),
        HostOs::Other => None,
    }
}

/// Builds the termination command for `pid` on `host`, exactly as
/// [`spec_kill_command`] states it.
pub fn kill_command_for(host: HostOs, pid: &str) -> (r: Option<(String, Vec<String>)>)
    ensures
        r.deep_view() == spec_kill_command(host, pid@),
{
    match host {
        HostOs::Windows => {
            let mut args: Vec<String> = Vec::new();
            args.push("/PID".to_owned());
            args.push(pid.to_owned());
            args.push("/F".to_owned());
            proof {
                assert(args.deep_view() =~= seq!["/PID"@, pid@, "/F"@]);
            }
            Some(("taskkill".to_owned(), args))
        },
        HostOs::MacOs | HostOs::Linux => {
            let mut args: Vec<String> = Vec::new();
            args.push("-9".to_owned());
            args.push(pid.to_owned());
            proof {
                assert(args.deep_view() =~= seq!["-9"@, pid@]);
            }
            Some(("kill".to_owned(), args))
        },
        HostOs::Other => None,
    }
}

/// Whether the executor ran the termination command without an execution
/// error. The tool's own output is not inspected.
pub fn outcome_is_success(result: &Result<String, String>) -> (r: bool)
    ensures
        r == (result is Ok),
{
    match result {
        Ok(_) => true,
        Err(_) => false,
    }
}

/// Issues the platform termination command for `pid` through `executor` and
/// returns whether it ran without an execution error. On a host with no
/// known termination tool, returns `false` without running anything.
pub fn kill_process<E: CommandExecutor>(executor: &E, host: HostOs, pid: String) -> (r: bool)
    ensures
        host is Other ==> r == false,
{
    match kill_command_for(host, pid.as_str()) {
        None => false,
        Some((cmd, args)) => {
            let result = executor.execute_command(cmd.as_str(), &args);
            outcome_is_success(&result)
        },
    }
}

/// The argument bundle of a kill request, as the front end hands it over.
pub struct KillArgs<'a> {
    pub pid: &'a str,
}

} // verus!
