use dozo::status::{format_duration, status_command, tool_status_report, ToolStatus};
use dozo::vendor::{get_tool_output_path, check_tool_exists, ToolProbe};

fn probe(output_is_dir: bool, output_exists: bool, main: bool, commands: bool) -> ToolProbe {
    ToolProbe {
        output_is_dir,
        output_exists,
        memory_main_exists: main,
        memory_commands_exists: commands,
    }
}

fn status(p: ToolProbe, files: usize, commands: usize, age: Option<u64>) -> ToolStatus {
    ToolStatus { probe: p, file_count: files, command_count: commands, age_seconds: age }
}

#[test]
fn test_format_duration() {
    assert_eq!(format_duration(30), "30s");
    assert_eq!(format_duration(90), "1m");
    assert_eq!(format_duration(3660), "1h");
    assert_eq!(format_duration(86401), "1d");
}

#[test]
fn test_get_tool_output_path() {
    assert_eq!(get_tool_output_path("cursor"), ".cursor/rules");
    assert_eq!(get_tool_output_path("memory"), "MEMORY.md");
    assert_eq!(get_tool_output_path("devin"), "devin-knowledge.json");
    assert_eq!(get_tool_output_path("unknown"), "unknown.config");
}

#[test]
fn test_check_tool_exists() {
    assert!(check_tool_exists("cursor", &probe(true, true, false, false)));
    assert!(!check_tool_exists("cursor", &probe(false, true, false, false)));
    assert!(check_tool_exists("memory", &probe(false, false, true, false)));
    assert!(check_tool_exists("memory", &probe(false, false, false, true)));
    assert!(!check_tool_exists("memory", &probe(false, false, false, false)));
    assert!(check_tool_exists("devin", &probe(false, true, false, false)));
}

#[test]
fn test_status_command_success() {
    let none = status(probe(false, false, false, false), 0, 0, None);
    let result = status_command("config", true, "proj", &none, &none, &none, false);
    assert!(result.is_ok());
}

#[test]
fn test_status_command_missing_config() {
    let none = status(probe(false, false, false, false), 0, 0, None);
    let result =
        status_command("/path/that/does/not/exist", false, "proj", &none, &none, &none, false);
    assert!(result.is_err());
    assert!(result.unwrap_err().message().contains("not found"));
}

#[test]
fn test_status_command_verbose() {
    let none = status(probe(false, false, false, false), 0, 0, None);
    let result = status_command("config", true, "proj", &none, &none, &none, true);
    assert!(result.is_ok());
    let report = result.unwrap();
    assert!(report.contains("Configuration directory: config"));
    assert!(report.contains("Output: .cursor/rules/ (hierarchy)"));
    assert!(report.contains("API: https://app.devin.ai/api"));
}

#[test]
fn test_print_cursor_status() {
    let present = status(probe(true, true, false, false), 2, 0, Some(42));
    let report = tool_status_report("cursor", &present, false);
    assert!(report.contains(".cursor/rules"));
    assert!(report.contains("(2 files)"));
    assert!(report.contains("Last modified: 42s ago"));

    let absent = status(probe(false, false, false, false), 0, 0, None);
    let report = tool_status_report("cursor", &absent, false);
    assert!(report.contains("(not found)"));
}

#[test]
fn test_print_memory_status() {
    let present = status(probe(false, false, true, true), 0, 3, Some(90));
    let report = tool_status_report("memory", &present, false);
    assert!(report.contains("Main file: MEMORY.md ✓"));
    assert!(report.contains("Last modified: 1m ago"));
    assert!(report.contains("Commands: .memory/commands ✓ (3 files)"));

    let absent = status(probe(false, false, false, false), 0, 0, None);
    let report = tool_status_report("memory", &absent, false);
    assert!(report.contains("Main file: MEMORY.md (not found)"));
}

#[test]
fn test_print_generic_status() {
    let present = status(probe(false, true, false, false), 0, 0, Some(5));
    let report = tool_status_report("devin", &present, false);
    assert!(report.contains("File: devin-knowledge.json ✓"));

    let absent = status(probe(false, false, false, false), 0, 0, None);
    let report = tool_status_report("devin", &absent, false);
    assert!(report.contains("File: devin-knowledge.json (not found)"));
}

#[test]
fn test_print_verbose_info() {
    let none = status(probe(false, false, false, false), 0, 0, None);
    assert!(tool_status_report("cursor", &none, true)
        .contains("Output: .cursor/rules/ (hierarchy)"));
    assert!(tool_status_report("memory", &none, true)
        .contains("Output: MEMORY.md + .memory/commands/ (if exists)"));
    assert!(tool_status_report("devin", &none, true).contains("API: https://app.devin.ai/api"));
    assert!(!tool_status_report("unknown", &none, true).contains("Output:"));
}
