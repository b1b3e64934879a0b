use metis_core::reassignment::BacklogCategory;

#[test]
fn test_backlog_category_parsing() {
    assert_eq!(BacklogCategory::from_str("bug"), Some(BacklogCategory::Bug));
    assert_eq!(BacklogCategory::from_str("feature"), Some(BacklogCategory::Feature));
    assert_eq!(BacklogCategory::from_str("tech-debt"), Some(BacklogCategory::TechDebt));
    assert_eq!(BacklogCategory::from_str("techdebt"), Some(BacklogCategory::TechDebt));
    assert_eq!(BacklogCategory::from_str("tech_debt"), Some(BacklogCategory::TechDebt));
    assert_eq!(BacklogCategory::from_str("invalid"), None);
}

#[test]
fn test_backlog_category_directory() {
    assert_eq!(BacklogCategory::Bug.directory_name(), "bugs");
    assert_eq!(BacklogCategory::Feature.directory_name(), "features");
    assert_eq!(BacklogCategory::TechDebt.directory_name(), "tech-debt");
}

use metis_core::models::Document;
use metis_core::reassignment::{ReassignError, ReassignmentService};

fn indexed(filepath: &str, document_type: &str, phase: &str) -> Document {
    Document {
        filepath: filepath.to_string(),
        id: "doc".to_string(),
        title: "Doc".to_string(),
        document_type: document_type.to_string(),
        created_at: 0,
        updated_at: 0,
        archived: false,
        exit_criteria_met: false,
        file_hash: String::new(),
        frontmatter_json: "{}".to_string(),
        content: None,
        phase: phase.to_string(),
        strategy_id: None,
        initiative_id: None,
        short_code: "TEST-T-0001".to_string(),
    }
}

#[test]
fn new_makes_the_workspace_absolute() {
    let svc = ReassignmentService::new("ws", "/home/me");
    let path = svc
        .compute_backlog_path(&indexed("tasks/TEST-T-0001.md", "task", "todo"), BacklogCategory::Bug)
        .unwrap();
    assert_eq!(path, "/home/me/ws/backlog/bugs/TEST-T-0001.md");
}

#[test]
fn check_task_and_parent_refusals() {
    let svc = ReassignmentService::new("/nowhere-ws", "/");
    assert_eq!(svc.check_task("X-1", None).unwrap_err(), ReassignError::NotFound("X-1".to_string()));
    assert_eq!(
        svc.check_task("X-1", Some(indexed("a.md", "initiative", "active"))).unwrap_err(),
        ReassignError::NotATask { short_code: "X-1".to_string(), document_type: "initiative".to_string() }
    );
    assert_eq!(svc.check_parent("I-1", None).unwrap_err(), ReassignError::ParentNotFound("I-1".to_string()));
    assert_eq!(
        svc.check_parent("I-1", Some(indexed("a.md", "task", "active"))).unwrap_err(),
        ReassignError::ParentNotInitiative { parent_id: "I-1".to_string(), document_type: "task".to_string() }
    );
    assert_eq!(
        svc.check_parent("I-1", Some(indexed("a.md", "initiative", "discovery"))).unwrap_err(),
        ReassignError::ParentWrongPhase { parent_id: "I-1".to_string(), phase: "discovery".to_string() }
    );
    assert!(svc.check_parent("I-1", Some(indexed("a.md", "initiative", "Active"))).is_ok());
}

#[test]
fn initiative_task_path_sits_beside_the_initiative() {
    let svc = ReassignmentService::new("/ws", "/");
    let parent = indexed("strategies/S/initiatives/I/initiative.md", "initiative", "active");
    let task = indexed("backlog/bugs/TEST-T-0001.md", "task", "todo");
    assert_eq!(
        svc.compute_initiative_task_path(&parent, &task).unwrap(),
        "/ws/strategies/S/initiatives/I/tasks/TEST-T-0001.md"
    );
}

#[test]
fn move_decision_order() {
    assert_eq!(ReassignmentService::move_decision("a", "b", false, true), Err(ReassignError::SourceMissing("a".to_string())));
    assert_eq!(ReassignmentService::move_decision("a", "b", true, true), Err(ReassignError::DestinationExists("b".to_string())));
    assert_eq!(ReassignmentService::move_decision("a", "a", true, false), Err(ReassignError::SameLocation));
    assert_eq!(ReassignmentService::move_decision("a", "b", true, false), Ok(()));
}

#[test]
fn plans_stop_at_the_first_refusal() {
    let svc = ReassignmentService::new("/nowhere-ws-for-tests", "/");
    let task = indexed("backlog/bugs/TEST-T-0001.md", "task", "todo");
    let parent = indexed("initiatives/I/initiative.md", "initiative", "decompose");
    assert_eq!(
        svc.plan_reassign_to_initiative("T-1", "I-1", None, Some(parent.clone())).unwrap_err(),
        ReassignError::NotFound("T-1".to_string())
    );
    assert_eq!(
        svc.plan_reassign_to_initiative("T-1", "I-1", Some(task.clone()), None).unwrap_err(),
        ReassignError::ParentNotFound("I-1".to_string())
    );
    // the task's file is not on disk
    assert_eq!(
        svc.plan_reassign_to_initiative("T-1", "I-1", Some(task.clone()), Some(parent)).unwrap_err(),
        ReassignError::SourceMissing("/nowhere-ws-for-tests/backlog/bugs/TEST-T-0001.md".to_string())
    );
    assert_eq!(
        svc.plan_reassign_to_backlog("T-1", BacklogCategory::Feature, Some(task)).unwrap_err(),
        ReassignError::SourceMissing("/nowhere-ws-for-tests/backlog/bugs/TEST-T-0001.md".to_string())
    );
}
