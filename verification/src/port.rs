//! Listing of open listening ports: dispatch of the platform diagnostic
//! command, and the per-platform parsers that turn its raw text output into
//! canonical `(process_name, port, pid)` records.

use vstd::prelude::*;
use vstd::string::StrSliceExecFns;
use vstd::string::StringExecFns;

use crate::command::CommandExecutor;
use crate::os::{HostOs, OS};
use crate::text::{
    after_last_colon, contains_listen, has_colon, has_listen, port_after_colon, spec_lines,
    spec_words, split_lines, split_words, lemma_words_nonempty,
};

verus! {

/// The platform listing command: program and argument list, or `None` on a
/// host with no known diagnostic tool.
pub open spec fn spec_list_command(host: HostOs) -> Option<(Seq<char>, Seq<Seq<char>>)> {
    match host {
        HostOs::Windows => Some(("netstat"@, seq!["-aon"@])),
        HostOs::MacOs => Some(("sh"@, seq!["-c"@, "lsof -i -P -n | grep LISTEN"@])),
        HostOs::Linux => Some(("sh"@, seq!["-c"@, "lsof -i -P -n | grep LISTEN"@])),
        HostOs::Other => None,
    }
}

/// Builds the listing command for `host`, exactly as [`spec_list_command`]
/// states it.
pub fn list_command_for(host: HostOs) -> (r: Option<(String, Vec<String>)>)
    ensures
        r.deep_view() == spec_list_command(host),
{
    match host {
        HostOs::Windows => {
            let mut args: Vec<String> = Vec::new();
            args.push("-aon".to_owned());
            proof {
                assert(args.deep_view() =~= seq!["-aon"@]);
            }
            Some(("netstat".to_owned(), args))
        },
        HostOs::MacOs | HostOs::Linux => {
            let mut args: Vec<String> = Vec::new();
            args.push("-c".to_owned());
            args.push("lsof -i -P -n | grep LISTEN".to_owned());
            proof {
                assert(args.deep_view() =~= seq!["-c"@, "lsof -i -P -n | grep LISTEN"@]);
            }
            Some(("sh".to_owned(), args))
        },
        HostOs::Other => None,
    }
}

/// Tags the outcome of the listing command with the parser that must consume
/// it: raw output on success, `Unsupported` when the command failed.
pub fn classify_list_result(host: HostOs, result: Result<String, String>) -> (r: OS)
    requires
        !(host is Other),
    ensures
        r == (match result {
            Ok(output) => if host is Windows {
                OS::Windows(output)
            } else {
                OS::MacOS(output)
            },
            Err(_) => OS::Unsupported,
        }),
{
    match result {
        Ok(output) => {
            if host == HostOs::Windows {
                OS::Windows(output)
            } else {
                OS::MacOS(output)
            }
        },
        Err(_) => OS::Unsupported,
    }
}

/// Runs the platform listing command through `executor` and returns its raw
/// output tagged with the parser that must consume it. A host with no known
/// diagnostic tool, or a failed command, yields `Unsupported`.
pub fn get_open_ports<E: CommandExecutor>(executor: &E, host: HostOs) -> (r: OS)
    ensures
        host is Other ==> r is Unsupported,
        r is Windows ==> host is Windows,
        r is MacOS ==> host is MacOs || host is Linux,
{
    match list_command_for(host) {
        None => OS::Unsupported,
        Some((cmd, args)) => {
            let result = executor.execute_command(cmd.as_str(), &args);
            classify_list_result(host, result)
        },
    }
}

/// The record an `lsof` output line yields: `(process_name, port, pid)` when
/// the line has at least 10 columns, its column 9 holds the `LISTEN` marker
/// and its column 8 (the address) holds a `:`; `None` otherwise.
pub open spec fn lsof_line_record(line: Seq<char>) -> Option<(Seq<char>, Seq<char>, Seq<char>)> {
    let ws = spec_words(line);
    if ws.len() >= 10 && has_listen(ws[9]) && has_colon(ws[8]) {
        Some((ws[0], after_last_colon(ws[8]), ws[1]))
    } else {
        None
    }
}

/// The records of a sequence of `lsof` output lines, in line order.
pub open spec fn lsof_records_of(lines: Seq<Seq<char>>) -> Seq<(Seq<char>, Seq<char>, Seq<char>)>
    decreases lines.len(),
{
    if lines.len() == 0 {
        Seq::empty()
    } else {
        let rest = lsof_records_of(lines.drop_last());
        match lsof_line_record(lines.last()) {
            Some(r) => rest.push(r),
            None => rest,
        }
    }
}

/// The records of raw `lsof -i -P -n | grep LISTEN` output: the first line
/// is the header and is skipped, every later line yields its record.
pub open spec fn spec_parse_lsof(s: Seq<char>) -> Seq<(Seq<char>, Seq<char>, Seq<char>)> {
    let ls = spec_lines(s);
    if ls.len() <= 1 {
        Seq::empty()
    } else {
        lsof_records_of(ls.skip(1))
    }
}

/// Parses one `lsof` output line, as [`lsof_line_record`] states.
fn lsof_line(line: &str) -> (r: Option<(String, String, String)>)
    ensures
        r.deep_view() == lsof_line_record(line@),
{
    let words = split_words(line);
    if words.len() >= 10 && contains_listen(words[9].as_str()) {
        proof {
            assert(words.deep_view()[9] == words@[9]@);
            assert(words.deep_view()[8] == words@[8]@);
        }
        match port_after_colon(words[8].as_str()) {
            Some(port) => {
                let r = Some((words[0].clone(), port, words[1].clone()));
                proof {
                    assert(words.deep_view()[0] == words@[0]@);
                    assert(words.deep_view()[1] == words@[1]@);
                    assert(r.deep_view() == lsof_line_record(line@));
                }
                r
            },
            None => None,
        }
    } else {
        None
    }
}

/// Parses raw `lsof -i -P -n | grep LISTEN` output into
/// `(process_name, port, pid)` records, in line order, as
/// [`spec_parse_lsof`] states: the header line is skipped, and a line
/// without the expected columns, the `LISTEN` marker or a `:` in its address
/// is dropped.
pub fn parsing_mac_lsof(output: &str) -> (r: Vec<(String, String, String)>)
    ensures
        r.deep_view() == spec_parse_lsof(output@),
{
    let lines = split_lines(output);
    let mut out: Vec<(String, String, String)> = Vec::new();
    if lines.len() <= 1 {
        return out;
    }
    let mut i: usize = 1;
    proof {
        assert(out.deep_view() =~= lsof_records_of(lines.deep_view().subrange(1, 1)));
    }
    while i < lines.len()
        invariant
            1 <= i <= lines.len(),
            lines.deep_view() == spec_lines(output@),
            out.deep_view() == lsof_records_of(lines.deep_view().subrange(1, i as int)),
        decreases lines.len() - i,
    {
        proof {
            let lv = lines.deep_view();
            let p = lv.subrange(1, i + 1);
            assert(p.drop_last() =~= lv.subrange(1, i as int));
            assert(p.last() == lv[i as int]);
            assert(lv[i as int] == lines@[i as int]@);
        }
        let rec = lsof_line(lines[i].as_str());
        match rec {
            Some(x) => {
                let ghost pre = out.deep_view();
                out.push(x);
                proof {
                    assert(out.deep_view() =~= pre.push(x.deep_view()));
                }
            },
            None => {},
        }
        i += 1;
    }
    proof {
        assert(lines.deep_view().subrange(1, lines.len() as int) =~= lines.deep_view().skip(1));
    }
    out
}

/// The entry a `netstat -aon` output line yields: `(port, pid)` when the
/// line has at least 5 columns, its column 3 (the state) is the literal
/// `LISTENING` and its column 1 (the local address) holds a `:`; `None`
/// otherwise.
pub open spec fn netstat_line_entry(line: Seq<char>) -> Option<(Seq<char>, Seq<char>)> {
    let ws = spec_words(line);
    if ws.len() >= 5 && ws[3] == "LISTENING"@ && has_colon(ws[1]) {
        Some((after_last_colon(ws[1]), ws[4]))
    } else {
        None
    }
}

/// The entries of a sequence of `netstat` output lines, in line order.
pub open spec fn netstat_entries_of(lines: Seq<Seq<char>>) -> Seq<(Seq<char>, Seq<char>)>
    decreases lines.len(),
{
    if lines.len() == 0 {
        Seq::empty()
    } else {
        let rest = netstat_entries_of(lines.drop_last());
        match netstat_line_entry(lines.last()) {
            Some(e) => rest.push(e),
            None => rest,
        }
    }
}

/// The `(port, pid)` entries of raw `netstat -aon` output: the first 4 lines
/// are the header and are skipped, every later line yields its entry.
pub open spec fn spec_parse_netstat(s: Seq<char>) -> Seq<(Seq<char>, Seq<char>)> {
    let ls = spec_lines(s);
    if ls.len() <= 4 {
        Seq::empty()
    } else {
        netstat_entries_of(ls.skip(4))
    }
}

/// Parses one `netstat` output line, as [`netstat_line_entry`] states.
fn netstat_line(line: &str) -> (r: Option<(String, String)>)
    ensures
        r.deep_view() == netstat_line_entry(line@),
{
    let words = split_words(line);
    let listening: String = "LISTENING".to_owned();
    if words.len() >= 5 && words[3] == listening {
        proof {
            assert(words.deep_view()[3] == words@[3]@);
            assert(words.deep_view()[1] == words@[1]@);
        }
        match port_after_colon(words[1].as_str()) {
            Some(port) => {
                let r = Some((port, words[4].clone()));
                proof {
                    assert(words.deep_view()[4] == words@[4]@);
                    assert(r.deep_view() == netstat_line_entry(line@));
                }
                r
            },
            None => None,
        }
    } else {
        None
    }
}

/// Extracts the `(port, pid)` entries of raw `netstat -aon` output, in line
/// order, as [`spec_parse_netstat`] states: the 4 header lines are skipped,
/// and a line without the expected columns, the `LISTENING` state or a `:`
/// in its local address is dropped. Process names are resolved afterwards,
/// by a separate lookup per entry.
pub fn netstat_listening_entries(output: &str) -> (r: Vec<(String, String)>)
    ensures
        r.deep_view() == spec_parse_netstat(output@),
{
    let lines = split_lines(output);
    let mut out: Vec<(String, String)> = Vec::new();
    if lines.len() <= 4 {
        return out;
    }
    let mut i: usize = 4;
    proof {
        assert(out.deep_view() =~= netstat_entries_of(lines.deep_view().subrange(4, 4)));
    }
    while i < lines.len()
        invariant
            4 <= i <= lines.len(),
            lines.deep_view() == spec_lines(output@),
            out.deep_view() == netstat_entries_of(lines.deep_view().subrange(4, i as int)),
        decreases lines.len() - i,
    {
        proof {
            let lv = lines.deep_view();
            let p = lv.subrange(4, i + 1);
            assert(p.drop_last() =~= lv.subrange(4, i as int));
            assert(p.last() == lv[i as int]);
            assert(lv[i as int] == lines@[i as int]@);
        }
        let rec = netstat_line(lines[i].as_str());
        match rec {
            Some(x) => {
                let ghost pre = out.deep_view();
                out.push(x);
                proof {
                    assert(out.deep_view() =~= pre.push(x.deep_view()));
                }
            },
            None => {},
        }
        i += 1;
    }
    proof {
        assert(lines.deep_view().subrange(4, lines.len() as int) =~= lines.deep_view().skip(4));
    }
    out
}

/// The process name a `tasklist /FI "PID eq <pid>"` output yields for `pid`:
/// column 0 of the first line whose column 1 equals `pid`.
pub open spec fn tasklist_name_in(lines: Seq<Seq<char>>, pid: Seq<char>) -> Option<Seq<char>>
    decreases lines.len(),
{
    if lines.len() == 0 {
        None
    } else {
        let ws = spec_words(lines[0]);
        if ws.len() >= 2 && ws[1] == pid {
            Some(ws[0])
        } else {
            tasklist_name_in(lines.drop_first(), pid)
        }
    }
}

/// The process name in raw `tasklist` output: the first 3 lines are the
/// header and are skipped, the rest is searched as [`tasklist_name_in`]
/// states.
pub open spec fn spec_tasklist_name(s: Seq<char>, pid: Seq<char>) -> Option<Seq<char>> {
    let ls = spec_lines(s);
    if ls.len() <= 3 {
        None
    } else {
        tasklist_name_in(ls.skip(3), pid)
    }
}

/// Finds the process name for `pid` in raw `tasklist` output, as
/// [`spec_tasklist_name`] states. A found name is nonempty, being a
/// whitespace-separated column.
pub fn tasklist_find_name(output: &str, pid: &str) -> (r: Option<String>)
    ensures
        r.deep_view() == spec_tasklist_name(output@, pid@),
        r matches Some(name) ==> name@.len() >= 1,
{
    let lines = split_lines(output);
    if lines.len() <= 3 {
        return None;
    }
    let pid_owned: String = pid.to_owned();
    let mut i: usize = 3;
    while i < lines.len()
        invariant
            3 <= i <= lines.len(),
            lines.deep_view() == spec_lines(output@),
            pid_owned@ == pid@,
            lines.deep_view().len() > 3,
            tasklist_name_in(lines.deep_view().skip(3), pid@) == tasklist_name_in(
                lines.deep_view().skip(i as int),
                pid@,
            ),
        decreases lines.len() - i,
    {
        proof {
            let lv = lines.deep_view();
            assert(lv.skip(i as int)[0] == lv[i as int]);
            assert(lv[i as int] == lines@[i as int]@);
            assert(lv.skip(i as int).drop_first() =~= lv.skip(i + 1));
        }
        let words = split_words(lines[i].as_str());
        if words.len() >= 2 && words[1] == pid_owned {
            proof {
                assert(words.deep_view()[1] == words@[1]@);
                assert(words.deep_view()[0] == words@[0]@);
                lemma_words_nonempty(lines@[i as int]@);
            }
            return Some(words[0].clone());
        }
        i += 1;
    }
    proof {
        assert(lines.deep_view().skip(lines.len() as int) =~= Seq::<Seq<char>>::empty());
    }
    None
}

/// Resolves the process name for `pid` by running
/// `tasklist /FI "PID eq <pid>"` through `executor` and searching its
/// output. `None` when the command failed or no line matches `pid`; a found
/// name is nonempty.
pub fn window_get_process_name<E: CommandExecutor>(executor: &E, pid: &str) -> (r: Option<String>)
    ensures
        r matches Some(name) ==> name@.len() >= 1,
{
    let mut args: Vec<String> = Vec::new();
    args.push("/FI".to_owned());
    args.push(String::from_str("PID eq ").concat(pid));
    match executor.execute_command("tasklist", &args) {
        Ok(output) => tasklist_find_name(output.as_str(), pid),
        Err(_) => None,
    }
}

/// Parses raw `netstat -aon` output into `(process_name, port, pid)`
/// records: the ports and PIDs are exactly the entries
/// [`spec_parse_netstat`] states, in order, and each process name is
/// resolved through `executor` (the literal `Unknown` where the lookup found
/// none).
pub fn parsing_window_netstat<E: CommandExecutor>(output: &str, executor: &E) -> (r: Vec<
    (String, String, String),
>)
    ensures
        r.deep_view().len() == spec_parse_netstat(output@).len(),
        forall|i: int|
            0 <= i < r.deep_view().len() ==> (#[trigger] r.deep_view()[i]).1 == spec_parse_netstat(
                output@,
            )[i].0 && r.deep_view()[i].2 == spec_parse_netstat(output@)[i].1,
{
    let entries = netstat_listening_entries(output);
    let mut out: Vec<(String, String, String)> = Vec::new();
    let mut i: usize = 0;
    while i < entries.len()
        invariant
            i <= entries.len(),
            entries.deep_view() == spec_parse_netstat(output@),
            out.deep_view().len() == i,
            forall|k: int|
                0 <= k < i ==> (#[trigger] out.deep_view()[k]).1 == entries.deep_view()[k].0
                    && out.deep_view()[k].2 == entries.deep_view()[k].1,
        decreases entries.len() - i,
    {
        let port = entries[i].0.clone();
        let pid = entries[i].1.clone();
        let name = match window_get_process_name(executor, pid.as_str()) {
            Some(n) => n,
            None => "Unknown".to_owned(),
        };
        proof {
            assert(entries.deep_view()[i as int] == entries@[i as int].deep_view());
        }
        let ghost pre = out.deep_view();
        out.push((name, port, pid));
        proof {
            assert(out.deep_view() =~= pre.push(
                (out@[i as int].0@, out@[i as int].1@, out@[i as int].2@),
            ));
        }
        i += 1;
    }
    out
}

/// Law: a malformed `lsof` line — too few columns, no `LISTEN` marker, or no
/// `:` in its address — contributes nothing, and the remaining lines parse
/// exactly as if it were absent.
pub proof fn lemma_lsof_malformed_dropped(lines: Seq<Seq<char>>, i: int)
    requires
        0 <= i < lines.len(),
        lsof_line_record(lines[i]) is None,
    ensures
        lsof_records_of(lines.remove(i)) == lsof_records_of(lines),
    decreases lines.len(),
{
    if i == lines.len() - 1 {
        assert(lines.remove(i) =~= lines.drop_last());
    } else {
        lemma_lsof_malformed_dropped(lines.drop_last(), i);
        assert(lines.remove(i).drop_last() =~= lines.drop_last().remove(i));
        assert(lines.remove(i).last() == lines.last());
    }
}

/// Law: a malformed `netstat` line — too few columns, a state other than
/// `LISTENING`, or no `:` in its local address — contributes nothing, and
/// the remaining lines parse exactly as if it were absent.
pub proof fn lemma_netstat_malformed_dropped(lines: Seq<Seq<char>>, i: int)
    requires
        0 <= i < lines.len(),
        netstat_line_entry(lines[i]) is None,
    ensures
        netstat_entries_of(lines.remove(i)) == netstat_entries_of(lines),
    decreases lines.len(),
{
    if i == lines.len() - 1 {
        assert(lines.remove(i) =~= lines.drop_last());
    } else {
        lemma_netstat_malformed_dropped(lines.drop_last(), i);
        assert(lines.remove(i).drop_last() =~= lines.drop_last().remove(i));
        assert(lines.remove(i).last() == lines.last());
    }
}

/// A line with fewer than 10 columns, or without the `LISTEN` marker in
/// column 9, or without a `:` in column 8, yields no `lsof` record.
pub proof fn lemma_lsof_line_malformed(line: Seq<char>)
    requires
        spec_words(line).len() < 10 || !has_listen(spec_words(line)[9]) || !has_colon(
            spec_words(line)[8],
        ),
    ensures
        lsof_line_record(line) is None,
{
}

/// A line with fewer than 5 columns, or whose column 3 is not the literal
/// `LISTENING`, or without a `:` in column 1, yields no `netstat` entry.
pub proof fn lemma_netstat_line_malformed(line: Seq<char>)
    requires
        spec_words(line).len() < 5 || spec_words(line)[3] != "LISTENING"@ || !has_colon(
            spec_words(line)[1],
        ),
    ensures
        netstat_line_entry(line) is None,
{
}

} // verus!
