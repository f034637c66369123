use dozo::errors::SyncError;
use dozo::knowledge::{Knowledge, Timestamp, sanitize_filename, get_folder_names,
    is_relevant_to_project, format_timestamp, knowledge_file_content, pull_devin_plan,
    devin_client_init, pull_devin_summary};

fn item(name: &str, trigger: &str, body: &str) -> Knowledge {
    Knowledge {
        id: "kn-1".to_string(),
        name: name.to_string(),
        body: body.to_string(),
        trigger_description: trigger.to_string(),
        parent_folder_id: None,
        created_at: Timestamp { year: 2024, month: 1, day: 5, hour: 9, minute: 30, second: 7 },
    }
}

#[test]
fn test_sanitize_filename() {
    assert_eq!(sanitize_filename("a/b\\c:d*e?f\"g<h>i|j"), "a_b_c_d_e_f_g_h_i_j");
    assert_eq!(sanitize_filename("  spaced name  "), "spaced name");
    assert_eq!(sanitize_filename("plain"), "plain");
}

#[test]
fn test_get_folder_names() {
    assert_eq!(
        get_folder_names("/Home/User/MyProj"),
        vec!["home".to_string(), "user".to_string(), "myproj".to_string()]
    );
    assert_eq!(get_folder_names("/"), Vec::<String>::new());
    assert_eq!(get_folder_names("/a/./b"), vec!["a".to_string(), "b".to_string()]);
}

#[test]
fn test_relevance_filter() {
    let names = vec!["myproj".to_string()];
    let hit = item("Some rules", "Use MyProj conventions", "body");
    assert!(is_relevant_to_project(&hit, &names));
    let by_name = item("myproj notes", "unrelated", "body");
    assert!(is_relevant_to_project(&by_name, &names));
    let by_body = item("notes", "unrelated", "about MYPROJ internals");
    assert!(is_relevant_to_project(&by_body, &names));
    let miss = item("other", "nothing here", "plain body");
    assert!(!is_relevant_to_project(&miss, &names));
}

#[test]
fn test_format_timestamp() {
    let t = Timestamp { year: 2024, month: 1, day: 5, hour: 9, minute: 30, second: 7 };
    assert_eq!(format_timestamp(&t), "2024-01-05 09:30:07 UTC");
    let t = Timestamp { year: 987, month: 12, day: 31, hour: 23, minute: 59, second: 59 };
    assert_eq!(format_timestamp(&t), "0987-12-31 23:59:59 UTC");
}

#[test]
fn test_knowledge_file_content() {
    let k = item("Rules", "trigger words", "The body text");
    let content = knowledge_file_content(&k);
    assert_eq!(
        content,
        "# Rules\n\n<!-- Devin Knowledge ID: kn-1 -->\n<!-- Trigger: trigger words -->\n<!-- Created: 2024-01-05 09:30:07 UTC -->\n\nThe body text\n"
    );
}

#[test]
fn test_pull_devin_plan() {
    let names = vec!["myproj".to_string()];
    let items = vec![
        item("Team Notes", "MyProj conventions", "body one"),
        item("Unrelated", "nothing", "plain"),
    ];
    let pulled = pull_devin_plan(&items, &names);
    assert_eq!(pulled.len(), 1);
    assert_eq!(pulled[0].path, "devin/Team Notes.md");
    assert!(pulled[0].text.contains("# Team Notes"));
    assert!(pulled[0].text.contains("body one"));
    assert_eq!(
        pull_devin_summary(pulled.len(), items.len()),
        "✅ Pulled 1 files from Devin (filtered from 2 total)"
    );
}

#[test]
fn test_pull_devin_plan_zero_matches() {
    let names = vec!["myproj".to_string()];
    let items = vec![item("Unrelated", "nothing", "plain")];
    let pulled = pull_devin_plan(&items, &names);
    assert_eq!(pulled.len(), 0);
    assert_eq!(
        pull_devin_summary(0, 1),
        "✅ Pulled 0 files from Devin (filtered from 1 total)"
    );
}

#[test]
fn test_devin_client_init() {
    let err = devin_client_init(None).unwrap_err();
    assert!(matches!(err, SyncError::Config { .. }));
    assert_eq!(err.message(), "Invalid configuration: DEVIN_API_KEY environment variable not set");
    assert_eq!(devin_client_init(Some("SECRET-REDACTED".to_string())).unwrap(), "SECRET-REDACTED");
}
