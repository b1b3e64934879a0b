use metis_core::commands::{
    truncate, Cli, Commands, ConfigCommand, ConfigSetError, LogLevel, OutputFormat, RequestedConfig, SearchCommand,
    SyncCommand, SyncSummary, TransitionCommand, TuiCommand,
};
use metis_core::config::{ConfigurationError, FlightLevelConfig};
use metis_core::sync::SyncResult;
use metis_core::types::Phase;

#[test]
fn test_truncate() {
    assert_eq!(truncate("short", 10), "short");
    assert_eq!(truncate("this is a very long string", 10), "this is...");
    assert_eq!(truncate("exactly_10", 10), "exactly_10");
}

#[test]
fn test_parse_phase() {
    let cmd = TransitionCommand {
        short_code: "test".to_string(),
        phase: Some("active".to_string()),
    };

    assert_eq!(cmd.parse_phase("draft").unwrap(), Phase::Draft);
    assert_eq!(cmd.parse_phase("ACTIVE").unwrap(), Phase::Active);
    assert_eq!(cmd.parse_phase("completed").unwrap(), Phase::Completed);
    assert!(cmd.parse_phase("invalid").is_err());
}

#[test]
fn parse_phase_reports_the_unknown_name() {
    let cmd = TransitionCommand { short_code: "X".to_string(), phase: None };
    assert_eq!(cmd.parse_phase("Nope"), Err("Unknown phase: Nope".to_string()));
    assert_eq!(cmd.parse_phase("DeCoMpOsE"), Ok(Phase::Decompose));
}

#[test]
fn truncate_below_three_keeps_only_the_dots() {
    assert_eq!(truncate("abcdef", 2), "...");
    assert_eq!(truncate("abcdef", 3), "...");
    assert_eq!(truncate("abcdef", 5), "ab...");
}

#[test]
fn log_level_follows_verbosity() {
    let make = |v: u8| Cli { verbose: v, command: Commands::Tui(TuiCommand {}) };
    assert_eq!(make(0).log_level(), LogLevel::Warn);
    assert_eq!(make(1).log_level(), LogLevel::Info);
    assert_eq!(make(2).log_level(), LogLevel::Debug);
    assert_eq!(make(3).log_level(), LogLevel::Trace);
    assert_eq!(make(200).log_level(), LogLevel::Trace);
}

#[test]
fn sync_summary_counts_moves_as_updates() {
    let results = vec![
        SyncResult::Imported { filepath: "a".to_string() },
        SyncResult::Moved { from: "b".to_string(), to: "c".to_string() },
        SyncResult::Updated { filepath: "d".to_string() },
        SyncResult::UpToDate { filepath: "e".to_string() },
        SyncResult::NotFound { filepath: "f".to_string() },
        SyncResult::Error { filepath: "g".to_string(), error: "boom".to_string() },
        SyncResult::Deleted { filepath: "h".to_string() },
    ];
    assert_eq!(
        SyncCommand::summarize(&results),
        SyncSummary { imported: 1, updated: 2, deleted: 1, up_to_date: 1, errors: 1 }
    );
    assert_eq!(
        SyncCommand::summarize(&vec![]),
        SyncSummary { imported: 0, updated: 0, deleted: 0, up_to_date: 0, errors: 0 }
    );
}

#[test]
fn search_shows_at_most_the_limit() {
    let cmd = SearchCommand { query: "q".to_string(), limit: 2, format: OutputFormat::Table };
    assert_eq!(cmd.limit_results(vec![1, 2, 3]), vec![1, 2]);
    assert_eq!(cmd.limit_results(vec![7]), vec![7]);
}

#[test]
fn config_change_requests() {
    assert_eq!(
        ConfigCommand::change_requested(&Some("direct".to_string()), None, None),
        Ok(RequestedConfig::Preset(FlightLevelConfig::direct()))
    );
    assert_eq!(
        ConfigCommand::change_requested(&Some("invalid".to_string()), None, None),
        Err(ConfigSetError::InvalidPreset("invalid".to_string()))
    );
    assert_eq!(ConfigCommand::change_requested(&None, Some(true), None), Ok(RequestedConfig::Custom));
    assert_eq!(ConfigCommand::change_requested(&None, None, None), Err(ConfigSetError::NothingToSet));
}

#[test]
fn custom_config_keeps_unset_levels() {
    let current = FlightLevelConfig::streamlined();
    assert_eq!(ConfigCommand::custom_config(current, None, Some(false)), Ok(FlightLevelConfig::direct()));
    assert_eq!(ConfigCommand::custom_config(current, Some(true), None), Ok(FlightLevelConfig::full()));
    assert_eq!(
        ConfigCommand::custom_config(FlightLevelConfig::direct(), Some(true), None),
        Err(ConfigSetError::InvalidConfiguration(ConfigurationError::StrategiesWithoutInitiatives))
    );
}

#[test]
fn sync_requires_a_workspace_and_fails_on_errors() {
    assert_eq!(SyncCommand::require_workspace(Some("/p/.metis".to_string())), Ok("/p/.metis".to_string()));
    assert_eq!(
        SyncCommand::require_workspace(None),
        Err("Not in a Metis workspace. Run 'metis init' to create one.".to_string())
    );
    let ok = SyncSummary { imported: 2, updated: 1, deleted: 0, up_to_date: 5, errors: 0 };
    assert_eq!(SyncCommand::finish(&ok), Ok(()));
    let bad = SyncSummary { errors: 3, ..ok };
    assert_eq!(SyncCommand::finish(&bad), Err("Sync completed with 3 errors".to_string()));
}
