use dozo::cli::{Cli, Commands, validate_tool_name};

#[test]
fn test_validate_tool_name() {
    assert!(validate_tool_name("cursor").is_ok());
    assert!(validate_tool_name("memory").is_ok());
    assert!(validate_tool_name("devin").is_ok());
    assert!(validate_tool_name("all").is_ok());
    assert!(validate_tool_name("invalid").is_err());
}

#[test]
fn test_cli_parsing() {
    let cli = Cli {
        command: Commands::Push { target: "cursor".to_string(), force: false },
        verbose: false,
        config: None,
    };
    assert!(matches!(cli.command, Commands::Push { .. }));
    assert!(!cli.verbose);
    if let Commands::Push { target, .. } = &cli.command {
        assert_eq!(target, "cursor");
    } else {
        panic!("Expected Push command");
    }

    let cli = Cli {
        command: Commands::Push { target: "all".to_string(), force: false },
        verbose: false,
        config: Some("custom-config".to_string()),
    };
    assert_eq!(cli.config_dir(), "custom-config");

    let cli = Cli {
        command: Commands::Pull { from: "devin".to_string(), merge: false },
        verbose: false,
        config: None,
    };
    assert_eq!(cli.config_dir(), ".agentic-coding");
}

#[test]
fn test_validate_tool_name_message() {
    let err = validate_tool_name("invalid").unwrap_err();
    assert_eq!(
        err,
        "Unknown tool 'invalid'. Available tools: cursor, memory, devin, all"
    );
}
