use metis_core::detection::{holds_vault, validated_dir};
use metis_core::detection::WorkspaceDetectionService;
use metis_core::order::chars_lt;
use metis_core::paths::{components, file_name, join, parent, strip_prefix};
use metis_core::text::{chars_contains, chars_of, trim_chars};

#[test]
fn path_operations() {
    assert_eq!(join("/a", "b"), "/a/b");
    assert_eq!(join("/a/", "b"), "/a/b");
    assert_eq!(join("/a", "/b"), "/b");
    assert_eq!(parent("/a/b/c.md"), Some("/a/b".to_string()));
    assert_eq!(parent("/"), None);
    assert_eq!(file_name("/a/b/c.md/"), Some("c.md".to_string()));
    assert_eq!(strip_prefix("/ws/.metis/x/y.md", "/ws/.metis"), Some("x/y.md".to_string()));
    assert_eq!(strip_prefix("/ws/.metisx/y.md", "/ws/.metis"), None);
    assert_eq!(components("a//b/c/"), vec!["a".to_string(), "b".to_string(), "c".to_string()]);
}

#[test]
fn text_helpers() {
    assert_eq!(trim_chars(&chars_of("\u{3000} x y\t")), chars_of("x y"));
    assert!(chars_contains(&chars_of("abc METIS_POST_COMMIT_HOOK def"), &chars_of("METIS_POST_COMMIT_HOOK")));
    assert!(!chars_contains(&chars_of("abc"), &chars_of("abcd")));
    assert!(chars_lt(&chars_of("API-T-0001"), &chars_of("API-V-0001")));
    assert!(chars_lt(&chars_of("ab"), &chars_of("abc")));
    assert!(!chars_lt(&chars_of("abc"), &chars_of("abc")));
}

#[test]
fn test_validate_workspace_missing_directory() {
    let service = WorkspaceDetectionService::new();
    let result = service.validate_workspace("/nonexistent-path-for-metis-tests/.metis");
    assert!(result.is_none());
}

#[test]
fn no_workspace_above_a_missing_path() {
    let service = WorkspaceDetectionService::new();
    assert_eq!(service.find_workspace_from("/nonexistent-path-for-metis-tests/a/b"), None);
    assert!(!service.is_in_workspace("/nonexistent-path-for-metis-tests/a/b"));
}

#[test]
fn ancestor_dirs_walks_up_to_the_root() {
    assert_eq!(
        metis_core::detection::ancestor_dirs("/home/user/project"),
        vec!["/home/user/project".to_string(), "/home/user".to_string(), "/home".to_string(), "/".to_string()]
    );
}

#[test]
fn nearest_workspace_picks_the_closest_answer() {
    let start = "/home/user/project/sub";
    assert_eq!(
        metis_core::detection::nearest_workspace(start, &vec![false, true, true, false, false]),
        Some("/home/user/project/.metis".to_string())
    );
    assert_eq!(metis_core::detection::nearest_workspace(start, &vec![false; 5]), None);
    assert_eq!(
        metis_core::detection::nearest_workspace(start, &vec![true, false, false, false, false]),
        Some("/home/user/project/sub/.metis".to_string())
    );
}

#[test]
fn workspace_verdicts() {
    assert_eq!(validated_dir("/p/.metis", true, true), Some("/p/.metis".to_string()));
    assert_eq!(validated_dir("/p/.metis", true, false), None);
    assert_eq!(validated_dir("/p/.metis", false, false), None);
    assert!(holds_vault(true, true, true, true));
    assert!(!holds_vault(true, true, true, false));
    assert!(!holds_vault(false, false, false, false));
}

#[test]
fn missing_workspace_is_not_found() {
    let svc = WorkspaceDetectionService::new();
    let start = "/nonexistent-root-for-tests/a/b";
    assert_eq!(svc.validate_workspace("/nonexistent-root-for-tests/.metis"), None);
    assert!(!metis_core::detection::WorkspaceInitializationService::is_workspace("/nonexistent-root-for-tests"));
    assert_eq!(svc.find_vault_from(start), None);
}
