use metis_core::layout::{
    enters_folder_named, extract_level, extract_short_code, flatten_files, is_flat_candidate, is_flatten_candidate,
    level_from_fields, read_flat_files, stale_files, trimmed_field, FlatDocument, ScannedFile,
};

fn make_document_content(short_code: &str, level: &str, parent: Option<&str>) -> String {
    let parent_line = match parent {
        Some(p) => format!("parent: {}", p),
        None => "parent:".to_string(),
    };
    let mut s = String::new();
    s.push_str("---\n");
    s.push_str("id: test-doc\n");
    s.push_str(&format!("level: {}\n", level));
    s.push_str("title: \"Test Document\"\n");
    s.push_str(&format!("short_code: \"{}\"\n", short_code));
    s.push_str("created_at: 2026-01-01T00:00:00+00:00\n");
    s.push_str("updated_at: 2026-01-01T00:00:00+00:00\n");
    s.push_str(&format!("{}\n", parent_line));
    s.push_str("blocked_by: []\n");
    s.push_str("archived: false\n");
    s.push_str("tags:\n");
    s.push_str(&format!("  - \"#{}\"\n", level));
    s.push_str("  - \"#phase/active\"\n");
    s.push_str("exit_criteria_met: false\n");
    s.push_str("strategy_id: NULL\n");
    s.push_str("initiative_id: NULL\n");
    s.push_str("---\n\n");
    s.push_str("# Test Document\n\nSome content here.\n");
    s
}

fn read(path: &str, content: String) -> ScannedFile {
    ScannedFile::Read { path: path.to_string(), content }
}

/// The files of the standard local hierarchy, in the order a walk may meet them,
/// after the walk's own filters (the code index and `config.toml` are not read).
fn local_hierarchy() -> Vec<ScannedFile> {
    vec![
        read("/ws/vision.md", make_document_content("TEST-V-0001", "vision", None)),
        read("/ws/adrs/TEST-A-0001.md", make_document_content("TEST-A-0001", "adr", None)),
        read(
            "/ws/strategies/NULL/initiatives/TEST-I-0001/initiative.md",
            make_document_content("TEST-I-0001", "initiative", Some("TEST-V-0001")),
        ),
        read(
            "/ws/strategies/NULL/initiatives/TEST-I-0001/tasks/TEST-T-0001.md",
            make_document_content("TEST-T-0001", "task", Some("TEST-I-0001")),
        ),
        read(
            "/ws/strategies/NULL/initiatives/TEST-I-0001/tasks/TEST-T-0002.md",
            make_document_content("TEST-T-0002", "task", Some("TEST-I-0001")),
        ),
        read("/ws/backlog/bugs/TEST-T-0003.md", make_document_content("TEST-T-0003", "task", None)),
    ]
}

#[test]
fn test_extract_short_code_valid() {
    let content = make_document_content("PROJ-T-0001", "task", None);
    assert_eq!(extract_short_code(&content), Some("PROJ-T-0001".to_string()));
}

#[test]
fn test_extract_short_code_no_frontmatter() {
    let content = "# Just a markdown file\nNo frontmatter here.";
    assert_eq!(extract_short_code(content), None);
}

#[test]
fn test_extract_short_code_no_short_code_field() {
    let content = "---\ntitle: \"Test\"\nlevel: task\n---\n# Content\n";
    assert_eq!(extract_short_code(content), None);
}

#[test]
fn test_extract_short_code_empty_short_code() {
    let content = "---\nshort_code: \"\"\nlevel: task\n---\n# Content\n";
    assert_eq!(extract_short_code(content), None);
}

#[test]
fn test_extract_level_valid() {
    let content = make_document_content("PROJ-T-0001", "task", None);
    assert_eq!(extract_level(&content), Some("task".to_string()));
}

#[test]
fn test_extract_level_vision() {
    let content = make_document_content("PROJ-V-0001", "vision", None);
    assert_eq!(extract_level(&content), Some("vision".to_string()));
}

#[test]
fn test_extract_level_no_frontmatter() {
    assert_eq!(extract_level("# No frontmatter"), None);
}

#[test]
fn extract_short_code_trims_blanks() {
    assert_eq!(extract_short_code("---\nshort_code: \"  API-T-0007 \"\n---\n"), Some("API-T-0007".to_string()));
    assert_eq!(extract_short_code("---\nshort_code: \"   \"\n---\n"), None);
}

#[test]
fn extract_level_falls_back_to_other_fields() {
    assert_eq!(extract_level("---\ndocument_type: adr\n---\n"), Some("adr".to_string()));
    assert_eq!(extract_level("---\nlevel: \" \"\ntype: task\n---\n"), Some("task".to_string()));
}

#[test]
fn field_helpers() {
    assert_eq!(trimmed_field(Some("\t x \n".to_string())), Some("x".to_string()));
    assert_eq!(trimmed_field(Some(" ".to_string())), None);
    assert_eq!(
        level_from_fields(None, Some(" strategy ".to_string()), Some("task".to_string())),
        Some("strategy".to_string())
    );
}

#[test]
fn test_flatten_workspace_simple() {
    let result = flatten_files(&local_hierarchy());
    assert_eq!(result.documents.len(), 6);
    let short_codes: Vec<&str> = result.documents.iter().map(|d| d.short_code.as_str()).collect();
    assert!(short_codes.contains(&"TEST-V-0001"));
    assert!(short_codes.contains(&"TEST-A-0001"));
    assert!(short_codes.contains(&"TEST-I-0001"));
    assert!(short_codes.contains(&"TEST-T-0001"));
    assert!(short_codes.contains(&"TEST-T-0002"));
    assert!(short_codes.contains(&"TEST-T-0003"));
}

#[test]
fn test_flatten_excludes_non_document_files() {
    assert!(!is_flatten_candidate("config.toml"));
    assert!(!is_flatten_candidate("code-index.md"));
    let mut files = local_hierarchy();
    files.push(read("/ws/notes.md", "# Notes without front matter\n".to_string()));
    let result = flatten_files(&files);
    let filenames: Vec<&str> = result.documents.iter().map(|d| d.filename.as_str()).collect();
    assert!(!filenames.contains(&"config.toml"));
    assert!(!filenames.contains(&"code-index.md"));
    assert_eq!(result.skipped, vec!["/ws/notes.md".to_string()]);
}

#[test]
fn test_flatten_preserves_content() {
    let result = flatten_files(&local_hierarchy());
    let vision = result.documents.iter().find(|d| d.short_code == "TEST-V-0001").unwrap();
    assert!(vision.content.contains("short_code: \"TEST-V-0001\""));
    assert!(vision.content.contains("# Test Document"));
}

#[test]
fn test_flatten_filename_format() {
    let result = flatten_files(&local_hierarchy());
    for doc in &result.documents {
        assert_eq!(doc.filename, format!("{}.md", doc.short_code));
    }
}

#[test]
fn test_flatten_empty_workspace() {
    let result = flatten_files(&vec![]);
    assert!(result.documents.is_empty());
}

#[test]
fn flatten_orders_by_short_code() {
    let result = flatten_files(&local_hierarchy());
    let codes: Vec<&str> = result.documents.iter().map(|d| d.short_code.as_str()).collect();
    assert_eq!(codes, vec!["TEST-A-0001", "TEST-I-0001", "TEST-T-0001", "TEST-T-0002", "TEST-T-0003", "TEST-V-0001"]);
}

#[test]
fn flatten_walk_filters() {
    assert!(!is_flatten_candidate(".hidden-doc.md"));
    assert!(is_flatten_candidate("TEST-T-0001.md"));
    assert!(!is_flatten_candidate("notes.txt"));
    assert!(!enters_folder_named("archived", 1));
    assert!(!enters_folder_named(".git", 1));
    assert!(enters_folder_named(".metis", 0));
    assert!(enters_folder_named("strategies", 1));
}

#[test]
fn flatten_reports_duplicates_and_unreadable_files() {
    let content = make_document_content("TEST-T-0001", "task", None);
    let files = vec![
        read("/ws/doc1.md", content.clone()),
        ScannedFile::Unreadable { path: "/ws/locked.md".to_string(), message: "Read error: denied".to_string() },
        read("/ws/subdir/doc2.md", content.clone().replace("Some content", "Other content")),
    ];
    let result = flatten_files(&files);
    assert_eq!(result.documents.len(), 1);
    assert!(result.documents[0].content.contains("Some content"));
    assert_eq!(result.errors.len(), 2);
    assert_eq!(result.errors[0], ("/ws/locked.md".to_string(), "Read error: denied".to_string()));
    assert_eq!(result.errors[1].0, "/ws/subdir/doc2.md");
    assert_eq!(result.errors[1].1, "Duplicate short code 'TEST-T-0001' — already found, skipping this file");
}

#[test]
fn test_read_flat_documents_empty_dir() {
    let result = read_flat_files(&vec![]);
    assert!(result.documents.is_empty());
}

#[test]
fn read_flat_sorts_by_short_code() {
    let files = vec![
        read("/flat/API-V-0001.md", make_document_content("API-V-0001", "vision", None)),
        read("/flat/API-T-0001.md", make_document_content("API-T-0001", "task", Some("API-I-0001"))),
        read("/flat/README.md", "# README\n".to_string()),
    ];
    let result = read_flat_files(&files);
    assert_eq!(result.documents.len(), 2);
    assert_eq!(result.documents[0].short_code, "API-T-0001");
    assert_eq!(result.documents[1].short_code, "API-V-0001");
    assert_eq!(result.skipped, vec!["/flat/README.md".to_string()]);
    assert!(is_flat_candidate("API-V-0001.md"));
    assert!(!is_flat_candidate("config.toml"));
    assert!(!is_flat_candidate(".hidden.md"));
}

#[test]
fn read_after_flatten_gives_the_same_documents() {
    let flat = flatten_files(&local_hierarchy());
    let written: Vec<ScannedFile> = flat
        .documents
        .iter()
        .rev()
        .map(|d| read(&format!("/central/{}", d.filename), d.content.clone()))
        .collect();
    let back = read_flat_files(&written);
    assert_eq!(back.documents.len(), flat.documents.len());
    for (a, b) in back.documents.iter().zip(flat.documents.iter()) {
        assert_eq!(a.short_code, b.short_code);
        assert_eq!(a.filename, b.filename);
        assert_eq!(a.content, b.content);
    }
}

#[test]
fn stale_files_are_markdown_files_of_no_current_document() {
    let current = vec![FlatDocument {
        short_code: "API-T-0001".to_string(),
        filename: "API-T-0001.md".to_string(),
        content: String::new(),
    }];
    let names = vec![
        "API-T-0001.md".to_string(),
        "API-T-0002.md".to_string(),
        "notes.txt".to_string(),
        "API-V-0001.md".to_string(),
    ];
    assert_eq!(stale_files(&names, &current), vec!["API-T-0002.md".to_string(), "API-V-0001.md".to_string()]);
}
