use openports::command::CommandExecutor;
use openports::kill::kill_process;
use openports::os::HostOs;

const TEST_PID: &str = "1234";

const PROCESS_WINDOW_RESULT: &str = "SUCCESS: The process with PID 1234 has been terminated.";
const PROCESS_MAC_RESULT: &str = "Process 1234 has been terminated.";
const PROCESS_ERROR: &str = "Failed to terminate process.";

struct MockKillCommandExecutor;

impl CommandExecutor for MockKillCommandExecutor {
    fn execute_command(&self, command: &str, args: &Vec<String>) -> Result<String, String> {
        match command {
            "taskkill" => {
                if args.iter().any(|a| a == "/PID") && args.iter().any(|a| a == TEST_PID) {
                    Ok(PROCESS_WINDOW_RESULT.to_string())
                } else {
                    Err(PROCESS_ERROR.to_string())
                }
            }
            "kill" => {
                if args.iter().any(|a| a == "1234") {
                    Ok(PROCESS_MAC_RESULT.to_string())
                } else {
                    Err(PROCESS_ERROR.to_string())
                }
            }
            _ => Err(PROCESS_ERROR.to_string()),
        }
    }
}

#[test]
fn test_kill_process_macos() {
    let mock_executor = MockKillCommandExecutor;
    let result = kill_process(&mock_executor, HostOs::MacOs, TEST_PID.to_string());
    assert_eq!(result, true);
}

#[test]
fn kill_test_kill_process_macos() {
    let mock_executor = MockKillCommandExecutor;
    let result = kill_process(&mock_executor, HostOs::Linux, TEST_PID.to_string());
    assert_eq!(result, true);
}

#[test]
fn test_kill_process_windows() {
    let mock_executor = MockKillCommandExecutor;
    let result = kill_process(&mock_executor, HostOs::Windows, TEST_PID.to_string());
    assert_eq!(result, true);
}

#[test]
fn test_kill_process_failure() {
    let mock_executor = MockKillCommandExecutor;
    let result = kill_process(&mock_executor, HostOs::MacOs, "9999".to_string());
    assert_eq!(result, false);
}

/// A double that accepts only the exact argument list `kill -9 1234`.
struct ExactArgsKillExecutor;

impl CommandExecutor for ExactArgsKillExecutor {
    fn execute_command(&self, command: &str, args: &Vec<String>) -> Result<String, String> {
        if command == "kill" && args.len() == 2 && args[0] == "-9" && args[1] == "1234" {
            Ok(String::new())
        } else {
            Err(PROCESS_ERROR.to_string())
        }
    }
}

#[test]
fn test_kill_dispatch_exact_args() {
    let executor = ExactArgsKillExecutor;
    assert_eq!(
        kill_process(&executor, HostOs::MacOs, "1234".to_string()),
        true
    );
    assert_eq!(
        kill_process(&executor, HostOs::MacOs, "4321".to_string()),
        false
    );
}

#[test]
fn test_kill_process_unsupported_host() {
    let mock_executor = MockKillCommandExecutor;
    let result = kill_process(&mock_executor, HostOs::Other, TEST_PID.to_string());
    assert_eq!(result, false);
}
