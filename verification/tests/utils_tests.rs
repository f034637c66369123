use dozo::doc::Doc;
use dozo::utils::{ensure_config_exists, get_project_name, find_markdown_files, copy_hierarchy,
    copy_hierarchy_with_extension_change, read_and_combine_markdown_files};

fn docs(entries: &[(&str, &str)]) -> Vec<Doc> {
    entries.iter().map(|(p, t)| Doc::new(p, t)).collect()
}

#[test]
fn test_ensure_config_exists_with_existing_dir() {
    let result = ensure_config_exists(".agentic-coding", true);
    assert!(result.is_ok());
}

#[test]
fn test_ensure_config_exists_with_missing_dir() {
    let result = ensure_config_exists("/path/that/does/not/exist", false);
    assert!(result.is_err());
    assert!(result.unwrap_err().message().contains("not found"));
}

#[test]
fn test_get_project_name() {
    let name = get_project_name("/home/user/workspace");
    assert!(!name.is_empty());
    assert!(name.len() > 0);
    assert_eq!(name, "workspace");
    assert_eq!(get_project_name("/"), "Project");
    assert_eq!(get_project_name("/home/user/.."), "Project");
    assert_eq!(get_project_name("/home/user/proj/"), "proj");
}

#[test]
fn test_find_markdown_files() {
    let files = docs(&[
        ("test1.md", "# Test 1"),
        ("test2.md", "# Test 2"),
        ("test.txt", "Not markdown"),
        ("subdir/test3.md", "# Test 3"),
    ]);
    let found = find_markdown_files(&files);
    assert_eq!(found.len(), 3);
    let names: Vec<&str> = found.iter().map(|d| d.path.as_str()).collect();
    assert!(names.contains(&"test1.md"));
    assert!(names.contains(&"test2.md"));
    assert!(names.contains(&"subdir/test3.md"));
}

#[test]
fn test_copy_hierarchy() {
    let files = docs(&[
        ("test1.md", "# Test 1"),
        ("subdir/test2.md", "# Test 2"),
        ("test.txt", "Not copied"),
    ]);
    let result = copy_hierarchy(&files, None);
    assert_eq!(result.len(), 2);
    let names: Vec<&str> = result.iter().map(|d| d.path.as_str()).collect();
    assert!(names.contains(&"test1.md"));
    assert!(names.contains(&"subdir/test2.md"));
    assert!(!names.contains(&"test.txt"));
}

#[test]
fn test_copy_hierarchy_with_extension_change() {
    let files = docs(&[("test1.md", "# Test 1"), ("subdir/test2.md", "# Test 2")]);
    let result = copy_hierarchy(&files, Some("mdc"));
    assert_eq!(result.len(), 2);
    let names: Vec<&str> = result.iter().map(|d| d.path.as_str()).collect();
    assert!(names.contains(&"test1.mdc"));
    assert!(names.contains(&"subdir/test2.mdc"));
    assert!(!names.contains(&"test1.md"));
}

#[test]
fn test_copy_hierarchy_with_extension_change_function() {
    let files = docs(&[
        ("test1.mdc", "# Test 1"),
        ("test2.mdc", "# Test 2"),
        ("test.txt", "Not copied"),
    ]);
    let result = copy_hierarchy_with_extension_change(&files, "mdc", "md");
    assert_eq!(result.len(), 2);
    let names: Vec<&str> = result.iter().map(|d| d.path.as_str()).collect();
    assert!(names.contains(&"test1.md"));
    assert!(names.contains(&"test2.md"));
    assert!(!names.contains(&"test.txt"));
}

#[test]
fn test_read_and_combine_markdown_files() {
    let files = docs(&[
        ("intro.md", "Introduction content"),
        ("guide.md", "Guide content"),
        ("commands/deploy.md", "Deploy command"),
    ]);
    let result = read_and_combine_markdown_files(&files);
    assert!(result.contains("Introduction content"));
    assert!(result.contains("Guide content"));
    assert!(!result.contains("Deploy command"));
    assert!(result.contains("## Intro"));
    assert!(result.contains("## Guide"));
}

#[test]
fn test_read_and_combine_markdown_files_empty_dir() {
    let files: Vec<Doc> = Vec::new();
    let result = read_and_combine_markdown_files(&files);
    assert!(result.is_empty());
}

#[test]
fn test_read_and_combine_markdown_files_with_subdirs() {
    let files = docs(&[
        ("frontend/react-notes.md", "React content"),
        ("backend/api-notes.md", "API content"),
    ]);
    let result = read_and_combine_markdown_files(&files);
    assert!(result.contains("React content"));
    assert!(result.contains("API content"));
    assert!(result.contains("## Backend / Api Notes"));
    assert!(result.contains("## Frontend / React Notes"));
}

#[test]
fn test_read_and_combine_markdown_files_includes_tool_dirs() {
    let files = docs(&[
        ("general.md", "General rules"),
        ("devin/knowledge1.md", "Devin knowledge 1"),
        ("cursor/rules1.md", "Cursor rules"),
        ("memory/memory-notes.md", "Memory rules"),
        ("commands/deploy.md", "Deploy command"),
    ]);
    let result = read_and_combine_markdown_files(&files);
    assert!(result.contains("General rules"));
    assert!(result.contains("Devin knowledge 1"));
    assert!(result.contains("Cursor rules"));
    assert!(result.contains("Memory rules"));
    assert!(!result.contains("Deploy command"));
    assert!(result.contains("## General"));
    assert!(result.contains("## Devin / Knowledge1"));
    assert!(result.contains("## Cursor / Rules1"));
    assert!(result.contains("## Memory / Memory Notes"));
}

#[test]
fn test_combine_exact_section() {
    let files = docs(&[("general.md", "General rules")]);
    let result = read_and_combine_markdown_files(&files);
    assert_eq!(result, "\n## General\n\nGeneral rules\n");
}

#[test]
fn test_combine_sorted_order() {
    let files = docs(&[("zeta.md", "Z"), ("alpha.md", "A")]);
    let result = read_and_combine_markdown_files(&files);
    let a = result.find("## Alpha").unwrap();
    let z = result.find("## Zeta").unwrap();
    assert!(a < z);
}

#[test]
fn test_combine_idempotent() {
    let files = docs(&[
        ("intro.md", "Introduction content"),
        ("frontend/react-notes.md", "React content"),
        ("commands/deploy.md", "Deploy command"),
    ]);
    let first = read_and_combine_markdown_files(&files);
    let second = read_and_combine_markdown_files(&files);
    assert_eq!(first, second);
}
