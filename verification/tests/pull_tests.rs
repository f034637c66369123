use dozo::doc::Doc;
use dozo::errors::SyncError;
use dozo::pull_plan::{pull_precheck, pull_cursor_plan, pull_memory_plan};
use dozo::push_plan::{PushEnv, generate_cursor_files};
use dozo::vendor::Tool;

fn docs(entries: &[(&str, &str)]) -> Vec<Doc> {
    entries.iter().map(|(p, t)| Doc::new(p, t)).collect()
}

#[test]
fn test_pull_precheck_dispatch() {
    assert_eq!(pull_precheck("cursor", "c", false, false, 0).unwrap(), Tool::Cursor);
    assert_eq!(pull_precheck("memory", "c", false, false, 0).unwrap(), Tool::Memory);
    assert_eq!(pull_precheck("devin", "c", false, false, 0).unwrap(), Tool::Devin);
    let err = pull_precheck("bogus", "c", false, false, 0).unwrap_err();
    assert!(matches!(err, SyncError::UnknownTool { .. }));
}

#[test]
fn test_pull_precheck_needs_merge() {
    for from in ["cursor", "memory", "devin"] {
        let err = pull_precheck(from, ".agentic-coding", false, true, 2).unwrap_err();
        assert!(matches!(err, SyncError::NeedMerge { .. }));
        let msg = err.message();
        assert!(msg.contains("already contains 2 files"));
        assert!(msg.contains("--merge"));
    }
    assert!(pull_precheck("cursor", ".agentic-coding", true, true, 2).is_ok());
    assert!(pull_precheck("cursor", ".agentic-coding", false, true, 0).is_ok());
}

#[test]
fn test_pull_precheck_all_unsupported() {
    let err = pull_precheck("all", ".agentic-coding", false, false, 0).unwrap_err();
    assert!(matches!(err, SyncError::UnsupportedTool { .. }));
    assert_eq!(err.message(), "Unsupported tool: all");
}

#[test]
fn test_pull_from_no_cursor_config() {
    let result = pull_cursor_plan(&Vec::new(), false, &None);
    assert!(result.is_err());
    assert!(result.unwrap_err().message().contains("No Cursor configuration found"));
}

#[test]
fn test_pull_from_no_memory_config() {
    let result = pull_memory_plan(&None, &Vec::new(), false);
    assert!(result.is_err());
    assert!(result.unwrap_err().message().contains("No Memory configuration found"));
}

#[test]
fn test_pull_cursor_plan() {
    let rules = docs(&[("a.mdc", "A"), ("sub/b.mdc", "B"), ("stray.txt", "skip")]);
    let legacy = Some("legacy text".to_string());
    let pulled = pull_cursor_plan(&rules, true, &legacy).unwrap();
    let paths: Vec<&str> = pulled.iter().map(|d| d.path.as_str()).collect();
    assert!(paths.contains(&"a.md"));
    assert!(paths.contains(&"sub/b.md"));
    assert!(paths.contains(&"cursor-legacy.md"));
    assert!(!paths.iter().any(|p| p.ends_with("stray.txt")));
    let legacy_doc = pulled.iter().find(|d| d.path == "cursor-legacy.md").unwrap();
    assert_eq!(legacy_doc.text, "legacy text");
}

#[test]
fn test_pull_memory_plan() {
    let commands = docs(&[("deploy.md", "Deploy"), ("raw.txt", "skip")]);
    let pulled = pull_memory_plan(&Some("memory".to_string()), &commands, true).unwrap();
    let paths: Vec<&str> = pulled.iter().map(|d| d.path.as_str()).collect();
    assert!(paths.contains(&"MEMORY.md"));
    assert!(paths.contains(&"commands/deploy.md"));
    assert!(!paths.iter().any(|p| p.ends_with("raw.txt")));
    let main = pulled.iter().find(|d| d.path == "MEMORY.md").unwrap();
    assert_eq!(main.text, "memory");
}

#[test]
fn test_rules_roundtrip() {
    let originals = docs(&[
        ("general.md", "General body"),
        ("frontend/react-notes.md", "React body"),
        ("deep/down/c.md", "C body"),
    ]);
    let env = PushEnv {
        files: originals.clone(),
        force: false,
        project_name: "proj".to_string(),
        cursor_rules_exists: false,
        cursorrules_exists: false,
        memory_main_exists: false,
        memory_commands_exists: false,
        canonical_commands_exists: false,
    };
    let plan = generate_cursor_files(&env).unwrap();
    let rules: Vec<Doc> = plan
        .writes
        .iter()
        .filter(|d| d.path.starts_with(".cursor/rules/"))
        .map(|d| Doc::new(&d.path[".cursor/rules/".len()..], &d.text))
        .collect();
    assert_eq!(rules.len(), originals.len());
    let pulled = pull_cursor_plan(&rules, true, &None).unwrap();
    assert_eq!(pulled.len(), originals.len());
    for orig in &originals {
        let back = pulled.iter().find(|d| d.path == orig.path).unwrap();
        assert_eq!(back.text, orig.text);
    }
}
