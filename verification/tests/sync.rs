use metis_core::sync::{
    extract_document_id, extract_lineage_from_path, file_issue, is_orphan, prefer_path_lineage, sync_outcome, SyncIssue,
    SyncResult,
};

#[test]
fn lineage_from_path() {
    let ws = "/p/.metis";
    assert_eq!(
        extract_lineage_from_path("/p/.metis/strategies/S-1/initiatives/I-1/tasks/T-1.md", ws),
        (Some("S-1".to_string()), Some("I-1".to_string()))
    );
    assert_eq!(
        extract_lineage_from_path("/p/.metis/strategies/NULL/initiatives/I-1/initiative.md", ws),
        (None, Some("I-1".to_string()))
    );
    assert_eq!(extract_lineage_from_path("/p/.metis/strategies/S-1/strategy.md", ws), (Some("S-1".to_string()), None));
    assert_eq!(extract_lineage_from_path("/p/.metis/backlog/T-9.md", ws), (None, None));
    assert_eq!(extract_lineage_from_path("/elsewhere/strategies/S-1/strategy.md", ws), (None, None));
    assert_eq!(prefer_path_lineage(None, Some("doc".to_string())), Some("doc".to_string()));
    assert_eq!(prefer_path_lineage(Some("path".to_string()), Some("doc".to_string())), Some("path".to_string()));
}

#[test]
fn sync_outcomes() {
    assert_eq!(sync_outcome("/a.md", true, None, "h", None), SyncResult::Imported { filepath: "/a.md".to_string() });
    assert_eq!(
        sync_outcome("/a.md", true, None, "h", Some("/old.md".to_string())),
        SyncResult::Moved { from: "/old.md".to_string(), to: "/a.md".to_string() }
    );
    assert_eq!(sync_outcome("/a.md", false, Some("h"), "", None), SyncResult::Deleted { filepath: "/a.md".to_string() });
    assert_eq!(sync_outcome("/a.md", true, Some("h"), "h", None), SyncResult::UpToDate { filepath: "/a.md".to_string() });
    assert_eq!(sync_outcome("/a.md", true, Some("h"), "g", None), SyncResult::Updated { filepath: "/a.md".to_string() });
    assert_eq!(sync_outcome("/a.md", false, None, "", None), SyncResult::NotFound { filepath: "/a.md".to_string() });
}

#[test]
fn result_accessors() {
    let moved = SyncResult::Moved { from: "/a".to_string(), to: "/b".to_string() };
    assert_eq!(moved.filepath(), "/b");
    assert!(moved.is_change());
    assert!(!moved.is_error());
    let err = SyncResult::Error { filepath: "/c".to_string(), error: "x".to_string() };
    assert!(err.is_error() && !err.is_change());
    assert!(!SyncResult::UpToDate { filepath: "/d".to_string() }.is_change());
}

#[test]
fn issues_and_orphans() {
    assert_eq!(file_issue("/a", None, "h"), Some(SyncIssue::MissingFromDatabase { filepath: "/a".to_string() }));
    assert_eq!(
        file_issue("/a", Some("g"), "h"),
        Some(SyncIssue::OutOfSync { filepath: "/a".to_string(), reason: "File hash mismatch".to_string() })
    );
    assert_eq!(file_issue("/a", Some("h"), "h"), None);
    let listed = vec!["/a".to_string()];
    assert!(!is_orphan("/a", &listed, false));
    assert!(is_orphan("/b", &listed, false));
    assert!(!is_orphan("/b", &listed, true));
}

#[test]
fn document_ids_from_front_matter() {
    assert_eq!(extract_document_id("---\nid: test-document\ntitle: T\n---\n# T\n"), Ok("test-document".to_string()));
    assert_eq!(extract_document_id("# no front matter\n"), Err("Document missing ID in frontmatter".to_string()));
    assert_eq!(extract_document_id("---\n- a\n- b\n---\n"), Err("Frontmatter must be a hash/map".to_string()));
}
