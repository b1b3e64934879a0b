use metis_core::config::{ConfigurationError, FlightLevelConfig};
use metis_core::detection::WorkspaceInitializationService;
use metis_core::init::{InitCommand, InitError};

fn basic_init(name: Option<&str>) -> InitCommand {
    InitCommand {
        name: name.map(|s| s.to_string()),
        prefix: None,
        preset: None,
        strategies: None,
        initiatives: None,
        upstream: None,
        workspace_prefix: None,
        team: None,
    }
}

#[test]
fn prefix_from_project_name() {
    let cmd = basic_init(Some("Test Project"));
    assert_eq!(cmd.determine_project_prefix("Test Project"), "TESTPR");
    assert_eq!(cmd.determine_project_prefix("Acme"), "ACME");
    assert_eq!(cmd.determine_project_prefix("a-b c"), "ABC");
    assert_eq!(cmd.determine_project_prefix("My App"), "MYAPP");
    assert_eq!(cmd.determine_project_prefix("Project Vision"), "PROJEC");
    assert_eq!(cmd.determine_project_prefix("123 456"), "PROJ");
}

#[test]
fn explicit_prefix_is_uppercased_and_cut() {
    let mut cmd = basic_init(None);
    cmd.prefix = Some("acme".to_string());
    assert_eq!(cmd.determine_project_prefix("ignored"), "ACME");
    cmd.prefix = Some("verylongprefix".to_string());
    assert_eq!(cmd.determine_project_prefix("ignored"), "VERYLO");
}

#[test]
fn flight_config_choices() {
    let mut cmd = basic_init(None);
    assert_eq!(cmd.determine_flight_config(), Ok(FlightLevelConfig::streamlined()));
    cmd.preset = Some("full".to_string());
    assert_eq!(cmd.determine_flight_config(), Ok(FlightLevelConfig::full()));
    cmd.preset = Some("bogus".to_string());
    assert_eq!(cmd.determine_flight_config(), Err(InitError::InvalidPreset("bogus".to_string())));
    cmd.preset = None;
    cmd.initiatives = Some(false);
    assert_eq!(cmd.determine_flight_config(), Ok(FlightLevelConfig::direct()));
    cmd.strategies = Some(true);
    assert_eq!(
        cmd.determine_flight_config(),
        Err(InitError::InvalidConfiguration(ConfigurationError::StrategiesWithoutInitiatives))
    );
}

#[test]
fn strategies_need_upstream() {
    let mut cmd = basic_init(None);
    assert_eq!(cmd.check_strategies_allowed(FlightLevelConfig::full()), Err(InitError::StrategiesNeedUpstream));
    assert_eq!(cmd.check_strategies_allowed(FlightLevelConfig::streamlined()), Ok(()));
    cmd.upstream = Some("git@example.com:central.git".to_string());
    assert_eq!(cmd.check_strategies_allowed(FlightLevelConfig::full()), Ok(()));
    assert_eq!(cmd.required_workspace_prefix(), Err(InitError::WorkspacePrefixRequired));
    cmd.workspace_prefix = Some("api".to_string());
    assert_eq!(cmd.required_workspace_prefix(), Ok("api".to_string()));
}

#[test]
fn defaults_of_a_new_workspace() {
    assert_eq!(basic_init(None).project_name(), "Project Vision");
    assert_eq!(basic_init(Some("X")).project_name(), "X");
    assert_eq!(InitCommand::gitignore_content(), "metis.db\nmetis-mcp-server.log\n");
    let layout = WorkspaceInitializationService::layout("/home/me/project");
    assert_eq!(layout.metis_dir, "/home/me/project/.metis");
    assert_eq!(layout.database_path, "/home/me/project/.metis/metis.db");
    assert_eq!(layout.vision_path, "/home/me/project/.metis/vision.md");
    assert_eq!(WorkspaceInitializationService::strategies_dir("/p/.metis"), "/p/.metis/strategies");
}
