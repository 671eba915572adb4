use openports::command::CommandExecutor;
use openports::filter::FILTER;
use openports::kill::KillArgs;
use openports::list_open_ports;
use openports::os::HostOs;
use openports::port_info::{parse_decimal, PortInfo};

#[test]
fn test_filter_to_string() {
    assert_eq!(FILTER::PROCESS.to_string(), "PROCESS".to_string());
    assert_eq!(FILTER::PORT.to_string(), "PORT".to_string());
    assert_eq!(FILTER::PID.to_string(), "PID".to_string());
}

#[test]
fn test_filter_from_str() {
    assert_eq!(FILTER::from_str("PROCESS"), Ok(FILTER::PROCESS));
    assert_eq!(FILTER::from_str("PORT"), Ok(FILTER::PORT));
    assert_eq!(FILTER::from_str("PID"), Ok(FILTER::PID));
    assert_eq!(FILTER::from_str("process"), Err(()));
    assert_eq!(FILTER::from_str(""), Err(()));
}

#[test]
fn test_port_info_getters() {
    let info = PortInfo(
        "firefox".to_string(),
        "3000".to_string(),
        "1234".to_string(),
    );

    assert_eq!(info.get_process_name(), "firefox".to_string());
    assert_eq!(info.get_port(), "3000".to_string());
    assert_eq!(info.get_pid(), "1234".to_string());
    assert_eq!(info.get_port_as_usize(), 3000);
    assert_eq!(info.get_pid_as_usize(), 1234);
}

#[test]
fn test_parse_decimal_exact_values() {
    assert_eq!(parse_decimal("0"), 0);
    assert_eq!(parse_decimal("8080"), 8080);
    assert_eq!(parse_decimal("65535"), 65535);
    assert_eq!(parse_decimal("007"), 7);
}

#[test]
fn test_kill_args_holds_pid() {
    let args = KillArgs { pid: "1234" };
    assert_eq!(args.pid, "1234");
}

/// A double reporting the same socket once per protocol family, as `lsof`
/// does for a process bound on IPv4 and IPv6.
struct DoubleReportingExecutor;

impl CommandExecutor for DoubleReportingExecutor {
    fn execute_command(&self, command: &str, _args: &Vec<String>) -> Result<String, String> {
        match command {
            "sh" => Ok("\
COMMAND   PID   USER   FD   TYPE    DEVICE SIZE/OFF NODE NAME
node      4242  user   23u  IPv4 0x111111 0t0      TCP 127.0.0.1:9000 (LISTEN)
node      4242  user   24u  IPv6 0x222222 0t0      TCP 127.0.0.1:9000 (LISTEN)
"
            .to_string()),
            _ => Err("Unsupported command".to_string()),
        }
    }
}

#[test]
fn test_list_open_ports_deduplicates() {
    let executor = DoubleReportingExecutor;

    let result = list_open_ports(&executor, HostOs::MacOs);

    let expected = vec![("node".to_string(), "9000".to_string(), "4242".to_string())];
    assert_eq!(result, expected);
}

#[test]
fn test_list_open_ports_unsupported_host_is_empty() {
    let executor = DoubleReportingExecutor;

    let result = list_open_ports(&executor, HostOs::Other);

    assert!(result.is_empty());
}
