use metis_core::archive::{ArchiveMode, ArchiveService};
use metis_core::creation::{
    initial_tags, initiative_placement, next_adr_number, parse_u32, task_placement, task_placement_checked, CreationError,
    DocumentCreationService, Tag,
};
use metis_core::text::chars_of;
use metis_core::config::FlightLevelConfig;
use metis_core::deletion::{DeletionService, DeletionTarget};
use metis_core::discovery::{
    is_markdown_name, Candidate, DiscoveryError, DocumentDiscoveryService, ListedEntry,
};
use metis_core::filesystem::{
    merge_listing, names_a_file_path, tombstone_path, tree_prefix, DeletePlan, FilesystemService, ReadSource,
    StorageBackend, WritePlan,
};
use metis_core::migration::{MigrationItem, WorkspaceMigrationService};
use metis_core::recovery::{ConfigurationRecoveryService, RecoveryReport};
use metis_core::types::{DocumentType, Phase};

#[test]
fn backend_follows_the_branch() {
    assert!(!FilesystemService::new("/p/.metis", None).is_git_overlay());
    assert!(!FilesystemService::new("/p/.metis", Some(true)).is_git_overlay());
    let fs = FilesystemService::new("/p/.metis", Some(false));
    assert!(fs.is_git_overlay());
    assert!(!FilesystemService::local().is_git_overlay());
    assert_eq!(
        fs.to_overlay_path("/p/.metis/initiatives/I-1/initiative.md", "/p/.metis/initiatives/I-1/initiative.md", "/p/.metis"),
        Some("/p/.metis/.pending/initiatives/I-1/initiative.md".to_string())
    );
    assert_eq!(fs.to_overlay_path("/elsewhere/x.md", "/elsewhere/x.md", "/p/.metis"), None);
    assert_eq!(FilesystemService::local().to_overlay_path("/p/.metis/a.md", "/p/.metis/a.md", "/p/.metis"), None);
    assert_eq!(
        fs.to_tree_path("/p/.metis/vision.md", "/p", Some("/p")),
        Some(".metis/vision.md".to_string())
    );
}

#[test]
fn overlay_listing() {
    let fs = FilesystemService::new("/p/.metis", Some(false));
    assert_eq!(tombstone_path("/p/.metis/.pending/a.md"), "/p/.metis/.pending/a.md.deleted");
    assert_eq!(fs.overlay_folder_for("/p/.metis/initiatives"), Some("/p/.metis/.pending/initiatives".to_string()));
    assert_eq!(
        fs.overlay_entry_to_real("/p/.metis/.pending/initiatives/I-1/initiative.md", "initiative.md"),
        Some("/p/.metis/initiatives/I-1/initiative.md".to_string())
    );
    assert_eq!(fs.overlay_entry_to_real("/p/.metis/.pending/a.md.deleted", "a.md.deleted"), None);
    assert_eq!(fs.overlay_entry_to_real("/p/.metis/.pending/code-index.md", "code-index.md"), None);
    assert_eq!(tree_prefix("/p/.metis", "/p"), ".metis/");
    assert_eq!(tree_prefix("/p", "/p"), "");
    let listed = merge_listing(
        "/p",
        &vec![".metis/vision.md".to_string(), ".metis/old.md".to_string()],
        &vec![false, true],
        &vec!["/p/.metis/new.md".to_string(), "/p/.metis/vision.md".to_string()],
    );
    assert_eq!(listed, vec!["/p/.metis/new.md".to_string(), "/p/.metis/vision.md".to_string()]);
    assert!(fs.exists_given(false, false, false, true));
    assert!(!fs.exists_given(true, true, true, true));
    assert!(FilesystemService::local().exists_given(true, true, false, false));
}

#[test]
fn test_compute_hashes() {
    let content = "# Test Document\n\nThis is test content.";
    let hash1 = FilesystemService::compute_content_hash(content);
    let hash2 = FilesystemService::compute_content_hash(content);
    assert_eq!(hash1, hash2);
    let hash3 = FilesystemService::compute_content_hash("# Different Document\n\nThis is different content.");
    assert_ne!(hash1, hash3);
    assert_eq!(hash1.len(), 64);
    assert_eq!(
        FilesystemService::compute_content_hash(""),
        "e3b0c44298fc1c149afbf4c8996fb92427ae41e4649b934ca495991b7852b855"
    );
}

#[test]
fn creation_paths() {
    let s = DocumentCreationService::new("/p/.metis");
    assert_eq!(s.db_path(), "/p/.metis/metis.db");
    assert_eq!(s.vision_path(), "/p/.metis/vision.md");
    assert_eq!(s.strategy_path("P-S-0001"), "/p/.metis/strategies/P-S-0001/strategy.md");
    assert_eq!(s.initiative_dir("NULL", "P-I-0001"), "/p/.metis/strategies/NULL/initiatives/P-I-0001");
    assert_eq!(s.task_dir("NULL", "P-I-0001"), "/p/.metis/strategies/NULL/initiatives/P-I-0001/tasks");
    assert_eq!(s.adr_path("P-A-0001"), "/p/.metis/adrs/P-A-0001.md");
    assert_eq!(s.determine_backlog_directory(&vec![]), "/p/.metis/backlog");
    assert_eq!(
        s.determine_backlog_directory(&vec![Tag::Phase(Phase::Backlog), Tag::Label("feature".to_string()), Tag::Label("bug".to_string())]),
        "/p/.metis/backlog/features"
    );
    assert_eq!(s.determine_backlog_directory(&vec![Tag::Label("tech-debt".to_string())]), "/p/.metis/backlog/tech-debt");
}

#[test]
fn initiative_placement_follows_the_configuration() {
    assert_eq!(
        initiative_placement(&FlightLevelConfig::direct(), "NULL", None),
        Err(CreationError::InitiativesDisabled("direct".to_string()))
    );
    assert_eq!(initiative_placement(&FlightLevelConfig::streamlined(), "X", None), Ok((None, "NULL".to_string())));
    assert_eq!(
        initiative_placement(&FlightLevelConfig::full(), "NULL", None),
        Err(CreationError::InitiativeNeedsStrategy("full".to_string()))
    );
    assert_eq!(
        initiative_placement(&FlightLevelConfig::full(), "P-S-0001", None),
        Err(CreationError::ParentNotFound(DocumentType::Strategy, "P-S-0001".to_string()))
    );
    assert_eq!(
        initiative_placement(&FlightLevelConfig::full(), "P-S-0001", Some("P-S-0001".to_string())),
        Ok((Some("P-S-0001".to_string()), "P-S-0001".to_string()))
    );
}

#[test]
fn task_placement_follows_the_configuration() {
    let direct = task_placement(&FlightLevelConfig::direct(), "NULL", "NULL", None, None).unwrap();
    assert_eq!((direct.strategy.as_str(), direct.initiative.as_str(), direct.parent), ("NULL", "NULL", None));
    assert_eq!(
        task_placement(&FlightLevelConfig::streamlined(), "NULL", "NULL", None, None).err(),
        Some(CreationError::TaskNeedsInitiative("streamlined".to_string()))
    );
    let t = task_placement(&FlightLevelConfig::streamlined(), "NULL", "P-I-0001", Some("P-I-0001".to_string()), None).unwrap();
    assert_eq!((t.strategy.as_str(), t.initiative.as_str()), ("NULL", "P-I-0001"));
    assert_eq!(t.parent, Some("P-I-0001".to_string()));
    assert_eq!(
        task_placement(&FlightLevelConfig::full(), "NULL", "P-I-0001", Some("P-I-0001".to_string()), None).err(),
        Some(CreationError::TaskNeedsStrategy("full".to_string()))
    );
    assert_eq!(
        task_placement(&FlightLevelConfig::full(), "P-S-0001", "P-I-0001", None, None).err(),
        Some(CreationError::ParentNotFound(DocumentType::Initiative, "P-I-0001".to_string()))
    );
}

#[test]
fn adr_numbers() {
    assert_eq!(next_adr_number(&vec![]), 1);
    assert_eq!(next_adr_number(&vec!["001-first-adr.md".to_string(), "002-second-adr.md".to_string()]), 3);
    assert_eq!(next_adr_number(&vec!["010-x.txt".to_string(), "P-A-0001.md".to_string(), "7.md".to_string()]), 1);
    assert_eq!(parse_u32(&chars_of("+42")), Some(42));
    assert_eq!(parse_u32(&chars_of("4294967295")), Some(4294967295));
    assert_eq!(parse_u32(&chars_of("4294967296")), None);
    assert_eq!(parse_u32(&chars_of("")), None);
    assert_eq!(parse_u32(&chars_of("+")), None);
    assert_eq!(parse_u32(&chars_of("1a")), None);
}

#[test]
fn initial_tags_lead_with_type_and_phase() {
    let tags = initial_tags("task", None, Phase::Todo, &vec![Tag::Label("bug".to_string())]);
    assert_eq!(tags, vec![Tag::Label("task".to_string()), Tag::Phase(Phase::Todo), Tag::Label("bug".to_string())]);
    let tags = initial_tags("vision", Some(Phase::Review), Phase::Draft, &vec![]);
    assert_eq!(tags, vec![Tag::Label("vision".to_string()), Tag::Phase(Phase::Review)]);
}

#[test]
fn archive_locations() {
    let a = ArchiveService::new("/p/.metis");
    assert_eq!(ArchiveService::archive_mode(DocumentType::Initiative), ArchiveMode::WholeFolder);
    assert_eq!(ArchiveService::archive_mode(DocumentType::Task), ArchiveMode::SingleFile);
    let target = a.archive_target("/p/.metis/strategies/NULL/initiatives/I-1").unwrap();
    assert_eq!(target, "/p/.metis/archived/strategies/NULL/initiatives/I-1");
    assert_eq!(a.original_path(&target), Some("/p/.metis/strategies/NULL/initiatives/I-1".to_string()));
    assert_eq!(a.archive_target("/other/x.md"), None);
    assert_eq!(a.is_in_archive("/p/.metis/archived/adrs/A.md"), Some(true));
    assert_eq!(a.is_in_archive("/p/.metis/adrs/A.md"), Some(false));
    assert_eq!(a.is_in_archive("/q/A.md"), None);
}

#[test]
fn deletion_targets() {
    let d = DeletionService::new();
    assert!(d.removes_folder_from_disk());
    assert_eq!(
        d.target_for("/p/.metis/strategies/NULL/initiatives/I-1/initiative.md"),
        DeletionTarget::Folder("/p/.metis/strategies/NULL/initiatives/I-1".to_string())
    );
    assert_eq!(d.target_for("/p/.metis/adrs/A.md"), DeletionTarget::File("/p/.metis/adrs/A.md".to_string()));
    assert!(!DeletionService::new_for_workspace("/p/.metis", Some(false)).removes_folder_from_disk());
}

#[test]
fn discovery_names() {
    let s = DocumentDiscoveryService::new("/p/.metis");
    assert_eq!(s.vision_path(), "/p/.metis/vision.md");
    assert_eq!(s.strategies_dir(), "/p/.metis/strategies");
    assert_eq!(s.adrs_dir(), "/p/.metis/adrs");
    assert_eq!(
        DocumentDiscoveryService::search_order(),
        vec![DocumentType::Vision, DocumentType::Strategy, DocumentType::Initiative, DocumentType::Task, DocumentType::Adr]
    );
    assert!(is_markdown_name("a.md"));
    assert!(!is_markdown_name(".md"));
}

#[test]
fn migration_plan() {
    let items = vec![
        MigrationItem::StrayFile("/m/strategies/strategy.md".to_string()),
        MigrationItem::StrategyDocument("/m/strategies/S-1/strategy.md".to_string()),
        MigrationItem::Initiative { src: "/m/strategies/S-1/initiatives/I-1".to_string(), name: "I-1".to_string() },
        MigrationItem::Initiative { src: "/m/strategies/S-1/initiatives/I-2".to_string(), name: "I-2".to_string() },
        MigrationItem::StrategyFolder("/m/strategies/S-1".to_string()),
        MigrationItem::Initiative { src: "/m/strategies/NULL/initiatives/I-1".to_string(), name: "I-1".to_string() },
        MigrationItem::StrategyFolder("/m/strategies/NULL".to_string()),
    ];
    let report = WorkspaceMigrationService::plan("/m", true, &items, &vec!["I-2".to_string()]);
    assert!(report.migrated);
    let moves: Vec<(String, String)> = report.moved_items.iter().map(|m| (m.from.clone(), m.to.clone())).collect();
    assert_eq!(moves, vec![("/m/strategies/S-1/initiatives/I-1".to_string(), "/m/initiatives/I-1".to_string())]);
    assert_eq!(
        report.deleted_items,
        vec![
            "/m/strategies/strategy.md".to_string(),
            "/m/strategies/S-1/strategy.md".to_string(),
            "/m/strategies/S-1".to_string(),
            "/m/strategies/NULL".to_string(),
            "/m/strategies".to_string(),
        ]
    );
    let noop = WorkspaceMigrationService::plan("/m", false, &items, &vec![]);
    assert!(!noop.migrated);
    assert!(noop.moved_items.is_empty() && noop.deleted_items.is_empty());
}

#[test]
fn recovery_decisions() {
    assert!(!RecoveryReport::new().had_recovery_actions());
    assert!(ConfigurationRecoveryService::needs_recovery(false, false));
    assert!(ConfigurationRecoveryService::needs_recovery(true, false));
    assert!(!ConfigurationRecoveryService::needs_recovery(true, true));
    let plan = ConfigurationRecoveryService::plan_config_sync(
        &Some("ABC".to_string()),
        "ABC",
        FlightLevelConfig::streamlined(),
        FlightLevelConfig::full(),
    );
    assert!(!plan.sync_prefix && plan.sync_flight_levels);
    let plan2 = ConfigurationRecoveryService::plan_config_sync(&None, "ABC", FlightLevelConfig::full(), FlightLevelConfig::full());
    assert!(plan2.sync_prefix && !plan2.sync_flight_levels);
    assert_eq!(ConfigurationRecoveryService::prefix_or_default(None), "PROJ");
    let report = ConfigurationRecoveryService::report(false, plan, &vec![true, false, true]);
    assert_eq!(report.counters_recovered, 2);
    assert!(report.had_recovery_actions());
    assert_eq!(ConfigurationRecoveryService::db_path("/w"), "/w/metis.db");
    assert_eq!(ConfigurationRecoveryService::config_file_path("/w"), "/w/config.toml");
}

#[test]
fn storage_backend_values() {
    assert_ne!(StorageBackend::Local, StorageBackend::GitOverlay { workspace_dir: "a".to_string(), overlay_dir: "b".to_string() });
}

fn parsed(path: &str, id: &str) -> Candidate {
    Candidate::Parsed { path: path.to_string(), id: id.to_string() }
}

fn unparsable(path: &str) -> Candidate {
    Candidate::Unparsable { path: path.to_string(), reason: format!("bad {}", path) }
}

#[test]
fn find_document_of_type_takes_the_first_match() {
    let s = DocumentDiscoveryService::new("/ws/.metis");
    let cands = vec![parsed("/a.md", "a"), parsed("/b.md", "b"), parsed("/b2.md", "b")];
    assert_eq!(s.find_document_of_type("b", DocumentType::Strategy, true, &cands), Ok("/b.md".to_string()));
    assert_eq!(
        s.find_document_of_type("z", DocumentType::Strategy, true, &cands),
        Err(DiscoveryError::NotFound("Strategy document not found".to_string()))
    );
}

#[test]
fn find_document_of_type_missing_folders() {
    let s = DocumentDiscoveryService::new("/ws/.metis");
    let none: Vec<Candidate> = Vec::new();
    assert_eq!(
        s.find_document_of_type("x", DocumentType::Task, false, &none),
        Err(DiscoveryError::NotFound("No strategies directory found".to_string()))
    );
    assert_eq!(
        s.find_document_of_type("x", DocumentType::Adr, false, &none),
        Err(DiscoveryError::NotFound("No ADRs directory found".to_string()))
    );
    assert_eq!(
        s.find_document_of_type("x", DocumentType::Vision, false, &none),
        Err(DiscoveryError::NotFound("Vision document not found".to_string()))
    );
    assert_eq!(
        s.find_document_of_type("x", DocumentType::Adr, true, &none),
        Err(DiscoveryError::NotFound("ADR document not found".to_string()))
    );
}

#[test]
fn find_document_of_type_unparsable_files() {
    let s = DocumentDiscoveryService::new("/ws/.metis");
    let cands = vec![unparsable("/x.md"), parsed("/t.md", "t")];
    // tasks and ADRs pass over files that do not parse
    assert_eq!(s.find_document_of_type("t", DocumentType::Task, true, &cands), Ok("/t.md".to_string()));
    // initiatives stop at the first one
    assert_eq!(
        s.find_document_of_type("t", DocumentType::Initiative, true, &cands),
        Err(DiscoveryError::InvalidDocument("bad /x.md".to_string()))
    );
    let walk = vec![Candidate::WalkError("denied".to_string()), parsed("/t.md", "t")];
    assert_eq!(
        s.find_document_of_type("t", DocumentType::Task, true, &walk),
        Err(DiscoveryError::FileSystem("denied".to_string()))
    );
}

#[test]
fn find_document_by_id_uses_the_first_type_that_found_it() {
    let s = DocumentDiscoveryService::new("/ws/.metis");
    let nf = || Err(DiscoveryError::NotFound("x".to_string()));
    let found = s
        .find_document_by_id("d", vec![nf(), nf(), Ok("/i.md".to_string()), Ok("/t.md".to_string()), nf()])
        .unwrap();
    assert_eq!(found.document_type, DocumentType::Initiative);
    assert_eq!(found.file_path, "/i.md");
    let missing = s.find_document_by_id("d", vec![nf(), nf(), nf(), nf(), nf()]);
    assert_eq!(missing.unwrap_err(), DiscoveryError::NotFound("Document 'd' not found in workspace".to_string()));
}

fn entry(segs: &[&str], is_file: bool) -> ListedEntry {
    ListedEntry { segments: segs.iter().map(|s| s.to_string()).collect(), is_file }
}

#[test]
fn document_files_by_type() {
    let s = DocumentDiscoveryService::new("/ws/.metis");
    let entries = vec![
        entry(&["vision.md"], true),
        entry(&["strategies"], false),
        entry(&["strategies", "S-1"], false),
        entry(&["strategies", "S-1", "strategy.md"], true),
        entry(&["strategies", "S-1", "initiatives", "I-1", "initiative.md"], true),
        entry(&["strategies", "S-1", "initiatives", "I-1", "tasks", "T-1.md"], true),
        entry(&["strategies", "S-1", "initiatives", "I-1", "tasks", "notes.txt"], true),
        entry(&["strategies", "S-1", "initiatives", "I-1", "T-2.md"], true),
        entry(&["adrs", "A-1.md"], true),
        entry(&["adrs", "old"], false),
    ];
    assert_eq!(s.find_all_documents_of_type(DocumentType::Vision, &entries), vec!["/ws/.metis/vision.md".to_string()]);
    assert_eq!(s.find_all_documents_of_type(DocumentType::Strategy, &entries), vec!["/ws/.metis/strategies/S-1/strategy.md".to_string()]);
    assert_eq!(
        s.find_all_documents_of_type(DocumentType::Initiative, &entries),
        vec!["/ws/.metis/strategies/S-1/initiatives/I-1/initiative.md".to_string()]
    );
    assert_eq!(
        s.find_all_documents_of_type(DocumentType::Task, &entries),
        vec!["/ws/.metis/strategies/S-1/initiatives/I-1/tasks/T-1.md".to_string()]
    );
    assert_eq!(s.find_all_documents_of_type(DocumentType::Adr, &entries), vec!["/ws/.metis/adrs/A-1.md".to_string()]);
}

#[test]
fn created_task_is_found() {
    let creation = DocumentCreationService::new("/ws/.metis");
    let dir = creation.task_dir("S-1", "I-1");
    let s = DocumentDiscoveryService::new("/ws/.metis");
    let entries = vec![
        entry(&["strategies", "S-1", "initiatives", "I-1", "tasks", "T-0.md"], true),
        entry(&["strategies", "S-1", "initiatives", "I-1", "tasks", "T-1.md"], true),
    ];
    let paths = s.find_all_documents_of_type(DocumentType::Task, &entries);
    assert_eq!(paths[1], format!("{}/T-1.md", dir));
    let cands = vec![parsed(&paths[0], "other"), parsed(&paths[1], "my-task")];
    assert_eq!(s.find_document_of_type("my-task", DocumentType::Task, true, &cands), Ok(format!("{}/T-1.md", dir)));
}

#[test]
fn overlay_routing() {
    let overlay = FilesystemService::new("/ws/.metis", Some(false));
    let local = FilesystemService::local();
    assert_eq!(local.read_source(true, true), ReadSource::Disk);
    assert_eq!(overlay.read_source(true, true), ReadSource::Deleted);
    assert_eq!(overlay.read_source(false, true), ReadSource::Overlay);
    assert_eq!(overlay.read_source(false, false), ReadSource::MainTree);
    assert_eq!(overlay.write_plan(true), WritePlan { to_overlay: true, remove_tombstone: true });
    assert_eq!(local.write_plan(true), WritePlan { to_overlay: false, remove_tombstone: false });
    assert_eq!(overlay.delete_plan(true), DeletePlan { remove_from_disk: false, remove_overlay: true, write_tombstone: true });
    assert_eq!(local.delete_plan(false), DeletePlan { remove_from_disk: true, remove_overlay: false, write_tombstone: false });
    assert!(names_a_file_path("/ws/.metis/.pending/a.md"));
    assert!(!names_a_file_path("/ws/.metis/.pending/"));
    assert!(!names_a_file_path("/ws/.."));
    assert!(!names_a_file_path(""));
}

#[test]
fn deletion_reports() {
    let svc = DeletionService::new();
    let folder = DeletionTarget::Folder("/ws/i".to_string());
    let files = vec!["/ws/i/initiative.md".to_string(), "/ws/i/t1.md".to_string(), "/ws/i/t2.md".to_string()];
    let r = svc.report(true, &folder, Some(files.clone()), &vec![true, false, true]);
    assert_eq!(r.deleted_files, vec!["/ws/i/initiative.md".to_string(), "/ws/i/t2.md".to_string()]);
    assert_eq!(r.cleaned_directories, vec!["/ws/i".to_string()]);
    let unlisted = svc.report(true, &folder, None, &vec![]);
    assert!(unlisted.deleted_files.is_empty() && unlisted.cleaned_directories.is_empty());
    let missing = svc.report(false, &folder, Some(files), &vec![true, true, true]);
    assert!(missing.deleted_files.is_empty() && missing.cleaned_directories.is_empty());
    let file = DeletionTarget::File("/ws/t.md".to_string());
    let r = svc.report(true, &file, Some(vec!["/ws/t.md".to_string()]), &vec![true]);
    assert_eq!(r.deleted_files, vec!["/ws/t.md".to_string()]);
    assert!(r.cleaned_directories.is_empty());
}

#[test]
fn task_placement_checks_the_initiative_file_first() {
    let full = FlightLevelConfig::full();
    let i = Some("P-I-0001".to_string());
    // strategies on, strategy NULL: the initiative's file under strategies/NULL is checked first
    assert_eq!(
        task_placement_checked(&full, "NULL", "P-I-0001", i.clone(), None, false).err(),
        Some(CreationError::ParentNotAtExpectedPath("P-I-0001".to_string()))
    );
    assert_eq!(
        task_placement_checked(&full, "NULL", "P-I-0001", i.clone(), None, true).err(),
        Some(CreationError::TaskNeedsStrategy("full".to_string()))
    );
    let ok = task_placement_checked(&full, "P-S-0001", "P-I-0001", i.clone(), Some("P-S-0001".to_string()), true).unwrap();
    assert_eq!((ok.strategy.as_str(), ok.initiative.as_str()), ("P-S-0001", "P-I-0001"));
    // a missing strategy is reported before the file check
    assert_eq!(
        task_placement_checked(&full, "P-S-0001", "P-I-0001", i, None, false).err(),
        Some(CreationError::ParentNotFound(DocumentType::Strategy, "P-S-0001".to_string()))
    );
    // no initiatives: nothing to check
    assert!(task_placement_checked(&FlightLevelConfig::direct(), "NULL", "NULL", None, None, false).is_ok());
}
