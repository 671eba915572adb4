use openports::command::CommandExecutor;
use openports::os::{HostOs, OS};
use openports::port::{
    get_open_ports, netstat_listening_entries, parsing_mac_lsof, parsing_window_netstat,
    tasklist_find_name, window_get_process_name,
};

pub struct MockCommandExecutor;

impl CommandExecutor for MockCommandExecutor {
    fn execute_command(&self, command: &str, _args: &Vec<String>) -> Result<String, String> {
        match command {
            "netstat" => Ok("Proto  Local Address          State           PID\nTCP    127.0.0.1:8080    LISTENING       1234".to_string()),
            "sh" => Ok("COMMAND   PID   USER   NODE NAME\nchrome    5678  user   0t0  TCP 192.168.1.10:3000 (LISTEN)".to_string()),
            _ => Err("Unsupported command".to_string()),
        }
    }
}

#[test]
fn test_get_open_ports_windows() {
    let mock_executor = MockCommandExecutor;

    let result = get_open_ports(&mock_executor, HostOs::Windows);

    let expected_result = "Proto  Local Address          State           PID\n\
                                       TCP    127.0.0.1:8080    LISTENING       1234"
        .to_string();

    match result {
        OS::Windows(output) => assert_eq!(output, expected_result),
        _ => panic!("Expected Windows result"),
    }
}

#[test]
fn test_get_open_ports_macos() {
    let mock_executor = MockCommandExecutor;

    let result = get_open_ports(&mock_executor, HostOs::MacOs);

    let expected_result = "COMMAND   PID   USER   NODE NAME\n\
                                     chrome    5678  user   0t0  TCP 192.168.1.10:3000 (LISTEN)"
        .to_string();

    match result {
        OS::MacOS(output) => assert_eq!(output, expected_result),
        _ => panic!("Expected MacOS result"),
    }
}

#[test]
fn test_get_open_ports_unsupported() {
    let mock_executor = MockCommandExecutor;

    let result = get_open_ports(&mock_executor, HostOs::Other);

    match result {
        OS::Unsupported => (),
        _ => panic!("Expected Unsupported result"),
    }
}

#[test]
fn test_parsing_mac_lsof() {
    let lsof_output = "\
COMMAND   PID   USER   FD   TYPE    DEVICE SIZE/OFF NODE NAME
firefox   1234  user   45u  IPv4 0x1a2b3c 0t0      TCP 127.0.0.1:3000 (LISTEN)
chrome    5678  user   48u  IPv4 0x4d5e6f 0t0      TCP 127.0.0.1:8080 (LISTEN)
";

    let expected_result = vec![
        (
            "firefox".to_string(),
            "3000".to_string(),
            "1234".to_string(),
        ),
        ("chrome".to_string(), "8080".to_string(), "5678".to_string()),
    ];

    let result = parsing_mac_lsof(lsof_output);

    assert_eq!(result, expected_result);
}

#[test]
fn test_parsing_mac_lsof_with_empty_output() {
    let empty_output = "";
    let expected_result: Vec<(String, String, String)> = vec![];
    let result = parsing_mac_lsof(empty_output);

    assert_eq!(result, expected_result);
}

#[test]
fn test_parsing_mac_lsof_drops_malformed_lines() {
    // a line with too few columns, one without the LISTEN marker, and one
    // without a colon in its address are dropped; later lines still parse
    let lsof_output = "\
COMMAND   PID   USER   FD   TYPE    DEVICE SIZE/OFF NODE NAME
short line
node      4242  user   20u  IPv4 0x9a8b7c 0t0      TCP 10.0.0.1:443 (ESTABLISHED)
bad       7777  user   21u  IPv4 0x111111 0t0      TCP noport (LISTEN)
chrome    5678  user   48u  IPv4 0x4d5e6f 0t0      TCP 127.0.0.1:8080 (LISTEN)
";

    let expected_result = vec![("chrome".to_string(), "8080".to_string(), "5678".to_string())];

    assert_eq!(parsing_mac_lsof(lsof_output), expected_result);
}

#[test]
fn test_netstat_extracts_port_and_pid() {
    // 4 header lines, then one listening socket: port and pid come out
    // before any process-name resolution
    let netstat_output = "\
Active Connections

  Proto  Local Address          Foreign Address        State           PID
  ====
TCP 127.0.0.1:8080 0.0.0.0:0 LISTENING 1234";

    let expected: Vec<(String, String)> = vec![("8080".to_string(), "1234".to_string())];

    assert_eq!(netstat_listening_entries(netstat_output), expected);
}

#[test]
fn test_netstat_empty_output() {
    let expected: Vec<(String, String)> = vec![];
    assert_eq!(netstat_listening_entries(""), expected);
}

#[test]
fn test_netstat_drops_malformed_lines() {
    // a non-listening socket, a line with too few columns and one without a
    // colon are dropped; the listening line still parses
    let netstat_output = "\
h1
h2
h3
h4
TCP 127.0.0.1:9000 0.0.0.0:0 ESTABLISHED 4242
TCP 127.0.0.1:9001
TCP noaddress 0.0.0.0:0 LISTENING 4243
TCP 127.0.0.1:8080 0.0.0.0:0 LISTENING 1234";

    let expected: Vec<(String, String)> = vec![("8080".to_string(), "1234".to_string())];

    assert_eq!(netstat_listening_entries(netstat_output), expected);
}

const TASKLIST_OUTPUT: &str = "\
Image Name                     PID Session Name        Session#    Mem Usage
========================= ======== ================ =========== ============
chrome.exe                    1234 Console                    1     11,440 K
chrome.exe                    1234 Console                    1     11,440 K";

/// A double serving both the netstat listing and the tasklist name lookup.
struct MockWindowsExecutor;

impl CommandExecutor for MockWindowsExecutor {
    fn execute_command(&self, command: &str, _args: &Vec<String>) -> Result<String, String> {
        match command {
            "netstat" => Ok("h1\nh2\nh3\nh4\nTCP 127.0.0.1:8080 0.0.0.0:0 LISTENING 1234"
                .to_string()),
            "tasklist" => Ok(TASKLIST_OUTPUT.to_string()),
            _ => Err("Unsupported command".to_string()),
        }
    }
}

#[test]
fn test_parsing_window_netstat_resolves_names() {
    let executor = MockWindowsExecutor;
    let netstat_output = "h1\nh2\nh3\nh4\nTCP 127.0.0.1:8080 0.0.0.0:0 LISTENING 1234";

    let expected = vec![(
        "chrome.exe".to_string(),
        "8080".to_string(),
        "1234".to_string(),
    )];

    assert_eq!(parsing_window_netstat(netstat_output, &executor), expected);
}

/// A double whose tasklist lookup always fails.
struct FailingLookupExecutor;

impl CommandExecutor for FailingLookupExecutor {
    fn execute_command(&self, _command: &str, _args: &Vec<String>) -> Result<String, String> {
        Err("Unsupported command".to_string())
    }
}

#[test]
fn test_parsing_window_netstat_unknown_name() {
    let executor = FailingLookupExecutor;
    let netstat_output = "h1\nh2\nh3\nh4\nTCP 127.0.0.1:8080 0.0.0.0:0 LISTENING 1234";

    let expected = vec![(
        "Unknown".to_string(),
        "8080".to_string(),
        "1234".to_string(),
    )];

    assert_eq!(parsing_window_netstat(netstat_output, &executor), expected);
}

#[test]
fn test_tasklist_find_name_matches_pid_column() {
    assert_eq!(
        tasklist_find_name(TASKLIST_OUTPUT, "1234"),
        Some("chrome.exe".to_string())
    );
    assert_eq!(tasklist_find_name(TASKLIST_OUTPUT, "9999"), None);
    assert_eq!(tasklist_find_name("", "1234"), None);
}

#[test]
fn test_window_get_process_name_lookup() {
    let executor = MockWindowsExecutor;
    assert_eq!(
        window_get_process_name(&executor, "1234"),
        Some("chrome.exe".to_string())
    );

    let failing = FailingLookupExecutor;
    assert_eq!(window_get_process_name(&failing, "1234"), None);
}
