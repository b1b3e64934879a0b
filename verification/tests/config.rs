use metis_core::config::{ConfigurationError, FlightLevelConfig};

#[test]
fn presets_and_names() {
    assert_eq!(FlightLevelConfig::full().preset_name(), "full");
    assert_eq!(FlightLevelConfig::streamlined().preset_name(), "streamlined");
    assert_eq!(FlightLevelConfig::direct().preset_name(), "direct");
    assert_eq!(FlightLevelConfig::from_preset("direct"), Some(FlightLevelConfig::direct()));
    assert_eq!(FlightLevelConfig::from_preset("Full"), None);
}

#[test]
fn strategies_without_initiatives_refused() {
    assert_eq!(FlightLevelConfig::new(true, false), Err(ConfigurationError::StrategiesWithoutInitiatives));
    assert_eq!(FlightLevelConfig::new(false, true), Ok(FlightLevelConfig::streamlined()));
}

#[test]
fn hierarchy_display() {
    assert_eq!(FlightLevelConfig::full().hierarchy_display(), "Vision → Strategy → Initiative → Task");
    assert_eq!(FlightLevelConfig::streamlined().hierarchy_display(), "Vision → Initiative → Task");
    assert_eq!(FlightLevelConfig::direct().hierarchy_display(), "Vision → Task");
}
