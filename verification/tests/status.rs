use metis_core::commands::OutputFormat;
use metis_core::models::Document;
use metis_core::status::StatusCommand;

fn doc(phase: &str, updated_at: i64, archived: bool) -> Document {
    Document {
        filepath: "/test.md".to_string(),
        id: format!("{}-{}", phase, updated_at),
        title: "Test".to_string(),
        document_type: "task".to_string(),
        created_at: 0,
        updated_at,
        archived,
        exit_criteria_met: false,
        file_hash: "hash".to_string(),
        frontmatter_json: "{}".to_string(),
        content: None,
        phase: phase.to_string(),
        strategy_id: Some("test-strategy".to_string()),
        initiative_id: Some("test-initiative".to_string()),
        short_code: "TEST-T-0001".to_string(),
    }
}

fn cmd() -> StatusCommand {
    StatusCommand { include_archived: false, format: OutputFormat::Table }
}

#[test]
fn test_action_priority() {
    let cmd = cmd();
    let blocked_doc = doc("blocked", 0, false);
    let todo_doc = Document { phase: "todo".to_string(), ..blocked_doc.clone() };
    let completed_doc = Document { phase: "completed".to_string(), ..blocked_doc.clone() };
    assert!(cmd.get_action_priority(&blocked_doc) < cmd.get_action_priority(&todo_doc));
    assert!(cmd.get_action_priority(&todo_doc) < cmd.get_action_priority(&completed_doc));
}

#[test]
fn action_priority_values() {
    let cmd = cmd();
    let expect = [
        ("blocked", 0), ("todo", 1), ("discussion", 2), ("active", 3), ("discovery", 4), ("shaping", 4),
        ("design", 4), ("ready", 5), ("decompose", 5), ("review", 6), ("decided", 7), ("published", 7),
        ("completed", 7), ("draft", 8), ("backlog", 8), ("whatever", 8),
    ];
    for (phase, p) in expect {
        assert_eq!(cmd.get_action_priority(&doc(phase, 0, false)), p, "{}", phase);
    }
}

#[test]
fn sort_puts_actionable_and_recent_first_and_is_stable() {
    let cmd = cmd();
    let mut docs = vec![
        doc("completed", 5, false),
        doc("todo", 1, false),
        doc("blocked", 1, false),
        doc("todo", 9, false),
        Document { title: "second".to_string(), ..doc("todo", 1, false) },
    ];
    cmd.sort_documents_by_priority(&mut docs);
    let order: Vec<(String, i64, String)> = docs.iter().map(|d| (d.phase.clone(), d.updated_at, d.title.clone())).collect();
    assert_eq!(
        order,
        vec![
            ("blocked".to_string(), 1, "Test".to_string()),
            ("todo".to_string(), 9, "Test".to_string()),
            ("todo".to_string(), 1, "Test".to_string()),
            ("todo".to_string(), 1, "second".to_string()),
            ("completed".to_string(), 5, "Test".to_string()),
        ]
    );
}

#[test]
fn counts_and_filter() {
    let cmd = cmd();
    let docs = vec![doc("blocked", 0, false), doc("todo", 0, true), doc("todo", 0, false), doc("active", 0, false)];
    assert_eq!(cmd.count_documents_by_phase(&docs), (1, 2, 1));
    let kept = cmd.filter_documents(docs.clone());
    assert_eq!(kept.len(), 3);
    let all = StatusCommand { include_archived: true, format: OutputFormat::Json }.filter_documents(docs);
    assert_eq!(all.len(), 4);
}

#[test]
fn truncate_string_uses_an_ellipsis() {
    let cmd = cmd();
    assert_eq!(cmd.truncate_string("short", 10), "short");
    assert_eq!(cmd.truncate_string("a longer title", 8), "a longe…");
}

#[test]
fn relative_times() {
    let cmd = cmd();
    assert_eq!(cmd.format_relative_time(-5), "Just now");
    assert_eq!(cmd.format_relative_time(30), "Just now");
    assert_eq!(cmd.format_relative_time(60), "1 minute ago");
    assert_eq!(cmd.format_relative_time(150), "2 minutes ago");
    assert_eq!(cmd.format_relative_time(3600), "1 hour ago");
    assert_eq!(cmd.format_relative_time(3 * 3600), "3 hours ago");
    assert_eq!(cmd.format_relative_time(86400), "1 day ago");
    assert_eq!(cmd.format_relative_time(3 * 86400), "3 days ago");
    assert_eq!(cmd.format_relative_time(15 * 86400), "2 weeks ago");
    assert_eq!(cmd.format_relative_time(65 * 86400), "2 months ago");
}

#[test]
fn document_types_listed() {
    assert_eq!(StatusCommand::get_document_types(), vec!["vision", "strategy", "initiative", "task", "adr"]);
}

fn with_frontmatter(phase: &str, json: &str) -> Document {
    Document { frontmatter_json: json.to_string(), ..doc(phase, 0, false) }
}

#[test]
fn blocked_by_lists_blockers_cut_to_the_column() {
    let cmd = cmd();
    let d = with_frontmatter("blocked", r#"{"blocked_by": ["PROJ-T-0001", "PROJ-T-0002"]}"#);
    assert_eq!(cmd.extract_blocked_by_info(&d), Some("PROJ-T-0001, PROJ…".to_string()));
    let short = with_frontmatter("blocked", r#"{"blocked_by": ["A-1", 7, "B-2"]}"#);
    assert_eq!(cmd.extract_blocked_by_info(&short), Some("A-1, B-2".to_string()));
}

#[test]
fn blocked_by_unknown_and_empty_cases() {
    let cmd = cmd();
    assert_eq!(cmd.extract_blocked_by_info(&with_frontmatter("todo", r#"{"blocked_by": ["X"]}"#)), Some(String::new()));
    assert_eq!(cmd.extract_blocked_by_info(&with_frontmatter("blocked", "{}")), Some("Unknown".to_string()));
    assert_eq!(cmd.extract_blocked_by_info(&with_frontmatter("blocked", "not json")), Some("Unknown".to_string()));
    assert_eq!(cmd.extract_blocked_by_info(&with_frontmatter("blocked", r#"{"blocked_by": []}"#)), Some("Unknown".to_string()));
    assert_eq!(cmd.extract_blocked_by_info(&with_frontmatter("blocked", r#"{"blocked_by": "X"}"#)), Some("Unknown".to_string()));
}

#[test]
fn blocked_by_refuses_a_cut_inside_a_character() {
    let cmd = cmd();
    // 16 ASCII bytes then a two-byte character across the cut at byte 17
    let d = with_frontmatter("blocked", r#"{"blocked_by": ["ABCDEFGHIJKLMNOPéé"]}"#);
    assert_eq!(cmd.extract_blocked_by_info(&d), None);
}
