use dozo::doc::Doc;
use dozo::errors::SyncError;
use dozo::push_plan::{PushEnv, generate_tool_files, generate_cursor_files, generate_memory_files,
    generate_devin_files, push_begin, push_counts, push_success_message, push_summary_message};

fn env(files: Vec<Doc>, force: bool) -> PushEnv {
    PushEnv {
        files,
        force,
        project_name: "proj".to_string(),
        cursor_rules_exists: false,
        cursorrules_exists: false,
        memory_main_exists: false,
        memory_commands_exists: false,
        canonical_commands_exists: false,
    }
}

fn docs(entries: &[(&str, &str)]) -> Vec<Doc> {
    entries.iter().map(|(p, t)| Doc::new(p, t)).collect()
}

#[test]
fn test_cursor_push_fresh() {
    let e = env(docs(&[("a.md", "A"), ("sub/b.md", "B"), ("note.txt", "skip")]), false);
    let plan = generate_cursor_files(&e).unwrap();
    assert!(plan.remove_dirs.is_empty());
    let paths: Vec<&str> = plan.writes.iter().map(|d| d.path.as_str()).collect();
    assert!(paths.contains(&".cursor/rules/a.mdc"));
    assert!(paths.contains(&".cursor/rules/sub/b.mdc"));
    assert!(!paths.iter().any(|p| p.ends_with("note.txt")));
    let legacy = plan.writes.iter().find(|d| d.path == ".cursorrules").unwrap();
    assert!(legacy.text.contains("## A"));
    assert!(legacy.text.contains("## Sub / B"));
}

#[test]
fn test_cursor_push_exists_without_force() {
    let mut e = env(docs(&[("a.md", "A")]), false);
    e.cursor_rules_exists = true;
    let err = generate_cursor_files(&e).unwrap_err();
    assert!(matches!(err, SyncError::DirExists { .. }));
    assert!(err.message().contains("already exists"));
    assert!(err.message().contains("--force"));
}

#[test]
fn test_cursor_push_exists_with_force() {
    let mut e = env(docs(&[("a.md", "A")]), true);
    e.cursor_rules_exists = true;
    let plan = generate_cursor_files(&e).unwrap();
    assert_eq!(plan.remove_dirs, vec![".cursor/rules".to_string()]);
    assert!(plan.writes.iter().any(|d| d.path == ".cursor/rules/a.mdc"));
}

#[test]
fn test_cursor_push_override_file() {
    let e = env(docs(&[("a.md", "A"), ("cursor-legacy.md", "override text")]), false);
    let plan = generate_cursor_files(&e).unwrap();
    let legacy = plan.writes.iter().find(|d| d.path == ".cursorrules").unwrap();
    assert_eq!(legacy.text, "override text");
}

#[test]
fn test_cursor_push_empty_combined_skips_legacy() {
    let e = env(docs(&[("note.txt", "not markdown")]), false);
    let plan = generate_cursor_files(&e).unwrap();
    assert!(!plan.writes.iter().any(|d| d.path == ".cursorrules"));
}

#[test]
fn test_memory_push_fresh() {
    let e = env(docs(&[("a.md", "Alpha body")]), false);
    let plan = generate_memory_files(&e).unwrap();
    assert_eq!(plan.writes.len(), 1);
    let main = &plan.writes[0];
    assert_eq!(main.path, "MEMORY.md");
    assert!(main.text.starts_with("# proj - Agent Memory"));
    assert!(main.text.contains("## A"));
    assert!(main.text.contains("Alpha body"));
}

#[test]
fn test_memory_push_exists_without_force() {
    let mut e = env(docs(&[("a.md", "A")]), false);
    e.memory_main_exists = true;
    let err = generate_memory_files(&e).unwrap_err();
    assert!(matches!(err, SyncError::FileExists { .. }));
    assert!(err.message().contains("MEMORY.md"));
}

#[test]
fn test_memory_push_commands_mirror() {
    let mut e = env(
        docs(&[("a.md", "A"), ("commands/deploy.md", "Deploy"), ("commands/raw.txt", "skip")]),
        true,
    );
    e.canonical_commands_exists = true;
    e.memory_commands_exists = true;
    let plan = generate_memory_files(&e).unwrap();
    assert_eq!(plan.remove_dirs, vec![".memory/commands".to_string()]);
    let paths: Vec<&str> = plan.writes.iter().map(|d| d.path.as_str()).collect();
    assert!(paths.contains(&"MEMORY.md"));
    assert!(paths.contains(&".memory/commands/deploy.md"));
    assert!(!paths.iter().any(|p| p.ends_with("raw.txt")));
}

#[test]
fn test_devin_push_unsupported() {
    let e = env(docs(&[("a.md", "A")]), true);
    let err = generate_devin_files(&e).unwrap_err();
    assert!(matches!(err, SyncError::PushUnsupported));
    assert!(err.message().contains("not yet implemented"));
    assert!(err.message().contains("DEVIN_API_KEY"));
}

#[test]
fn test_generate_tool_files_dispatch() {
    let e = env(docs(&[("a.md", "A")]), false);
    assert!(generate_tool_files("cursor", &e).is_ok());
    assert!(generate_tool_files("memory", &e).is_ok());
    assert!(generate_tool_files("devin", &e).is_err());
    let err = generate_tool_files("nope", &e).unwrap_err();
    assert!(matches!(err, SyncError::UnknownTool { .. }));
}

#[test]
fn test_push_begin() {
    let tools = push_begin("all", ".agentic-coding", true).unwrap();
    assert_eq!(tools, vec!["cursor".to_string(), "memory".to_string(), "devin".to_string()]);

    let tools = push_begin("memory", ".agentic-coding", true).unwrap();
    assert_eq!(tools, vec!["memory".to_string()]);

    let err = push_begin("bogus", ".agentic-coding", true).unwrap_err();
    assert!(matches!(err, SyncError::UnknownTool { .. }));

    let err = push_begin("all", ".agentic-coding", false).unwrap_err();
    assert!(matches!(err, SyncError::MissingConfigDir { .. }));
    assert!(err.message().contains("not found"));
}

#[test]
fn test_push_all_with_one_failure() {
    let e = env(docs(&[("a.md", "A")]), false);
    let tools = push_begin("all", ".agentic-coding", true).unwrap();
    let mut outcomes: Vec<bool> = Vec::new();
    for tool in &tools {
        outcomes.push(generate_tool_files(tool, &e).is_ok());
    }
    let (ok, bad) = push_counts(&outcomes);
    assert_eq!(ok, 2);
    assert_eq!(bad, 1);
    assert_eq!(push_summary_message(ok, bad), "⚠️  Push completed with 1 error(s)");
}

#[test]
fn test_push_messages() {
    assert_eq!(push_success_message("cursor", 3), "✅ Generated cursor configuration (3 files)");
    assert_eq!(push_summary_message(3, 0), "🎉 Successfully pushed to 3 tool(s)!");
}

#[test]
fn test_error_messages_for_remote_variants() {
    let api = SyncError::Api { message: "boom".to_string() };
    assert_eq!(api.message(), "API error: boom");
    let net = SyncError::Network { message: "down".to_string() };
    assert_eq!(net.message(), "Network error: down");
    let ser = SyncError::Serialization { message: "bad json".to_string() };
    assert_eq!(ser.message(), "Serialization error: bad json");
    let io = SyncError::Io { message: "disk".to_string() };
    assert_eq!(io.message(), "IO error: disk");
}
