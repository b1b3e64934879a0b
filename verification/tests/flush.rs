use metis_core::flush::{
    classify_pending, group_entries, hook_update, merge_entries, resolve_main_branch, PendingEntry, HOOK_BODY, HOOK_SHEBANG,
};
use metis_core::git::{current_branch, is_on_main, lists_tree_file, main_ref, resolve_main_branch_name, tree_path_of, BranchRefs};

#[test]
fn pending_files_classified() {
    assert_eq!(classify_pending(".metis", "initiatives/I-1/initiative.md", "initiative.md"), PendingEntry::File(".metis/initiatives/I-1/initiative.md".to_string()));
    assert_eq!(classify_pending(".metis", "adrs/A.md.deleted", "A.md.deleted"), PendingEntry::Tombstone(".metis/adrs/A.md".to_string()));
    assert_eq!(classify_pending(".metis", "x.deleted.deleted", "x.deleted.deleted"), PendingEntry::Tombstone(".metis/x".to_string()));
}

#[test]
fn merged_tree_applies_writes_then_tombstones() {
    let base = vec![
        (".metis/vision.md".to_string(), b"old vision".to_vec()),
        (".metis/adrs/A.md".to_string(), b"adr".to_vec()),
        ("README.md".to_string(), b"readme".to_vec()),
    ];
    let overlay = vec![
        (".metis/vision.md".to_string(), "new vision".to_string()),
        (".metis/tasks/T.md".to_string(), "task".to_string()),
    ];
    let tombstones = vec![".metis/adrs/A.md".to_string(), ".metis/tasks/T.md".to_string()];
    let mut merged = merge_entries(&base, &overlay, &tombstones);
    merged.sort();
    assert_eq!(
        merged,
        vec![(".metis/vision.md".to_string(), b"new vision".to_vec()), ("README.md".to_string(), b"readme".to_vec())]
    );
}

#[test]
fn entries_grouped_by_top_folder() {
    let entries = vec![
        ("README.md".to_string(), b"r".to_vec()),
        (".metis/vision.md".to_string(), b"v".to_vec()),
        (".metis/adrs/A.md".to_string(), b"a".to_vec()),
        ("src/lib.rs".to_string(), b"l".to_vec()),
    ];
    let (dirs, blobs) = group_entries(&entries);
    assert_eq!(blobs, vec![("README.md".to_string(), b"r".to_vec())]);
    assert_eq!(dirs.len(), 2);
    assert_eq!(dirs[0].0, ".metis");
    assert_eq!(dirs[0].1, vec![("vision.md".to_string(), b"v".to_vec()), ("adrs/A.md".to_string(), b"a".to_vec())]);
    assert_eq!(dirs[1].0, "src");
}

#[test]
fn hook_installation() {
    let fresh = hook_update(None).unwrap();
    assert!(fresh.starts_with("#!/bin/sh\n"));
    assert!(fresh.ends_with("fi\n"));
    assert_eq!(fresh, format!("{}\n{}\n", HOOK_SHEBANG, HOOK_BODY));
    assert_eq!(hook_update(Some(&fresh)), None);
    let appended = hook_update(Some("#!/bin/sh\necho hi")).unwrap();
    assert_eq!(appended, format!("#!/bin/sh\necho hi\n\n{}\n", HOOK_BODY));
    let appended2 = hook_update(Some("echo hi\n")).unwrap();
    assert_eq!(appended2, format!("echo hi\n\n{}\n", HOOK_BODY));
}

#[test]
fn main_branch_resolution() {
    assert_eq!(resolve_main_branch(true, true), Some("main"));
    assert_eq!(resolve_main_branch(false, true), Some("master"));
    assert_eq!(resolve_main_branch(false, false), None);
    let refs = BranchRefs { local_main: false, local_master: false, remote_main: true, remote_master: true };
    assert_eq!(resolve_main_branch_name(&refs), Some("main".to_string()));
    let refs = BranchRefs { local_main: false, local_master: true, remote_main: true, remote_master: false };
    assert_eq!(resolve_main_branch_name(&refs), Some("master".to_string()));
    let refs = BranchRefs { local_main: false, local_master: false, remote_main: false, remote_master: false };
    assert_eq!(resolve_main_branch_name(&refs), None);
}

#[test]
fn test_main_ref() {
    assert_eq!(main_ref("main"), "refs/heads/main");
}

#[test]
fn branch_checks() {
    assert_eq!(current_branch(true, Some("feature".to_string())), Some("feature".to_string()));
    assert_eq!(current_branch(false, Some("HEAD".to_string())), None);
    assert!(is_on_main(&Some("main".to_string()), "main"));
    assert!(!is_on_main(&Some("feature".to_string()), "main"));
    assert!(!is_on_main(&None, "main"));
    assert_eq!(tree_path_of("", "README.md"), "README.md");
    assert_eq!(tree_path_of(".metis/", "vision.md"), ".metis/vision.md");
    assert!(lists_tree_file(".metis/vision.md", "vision.md", ".metis/"));
    assert!(!lists_tree_file(".metis/code-index.md", "code-index.md", ".metis/"));
    assert!(!lists_tree_file("docs/x.md", "x.md", ".metis/"));
}

#[test]
fn workspace_found_from_missing_path() {
    assert_eq!(metis_core::flush::find_metis_workspace("/nonexistent-path-for-metis-tests/a"), None);
}

#[test]
fn installing_the_hook_twice_changes_nothing() {
    let fresh = hook_update(None).unwrap();
    assert_eq!(hook_update(Some(&fresh)), None);
    let existing = "#!/bin/sh\necho custom";
    let merged = hook_update(Some(existing)).unwrap();
    assert!(merged.starts_with(existing));
    assert_eq!(hook_update(Some(&merged)), None);
}
