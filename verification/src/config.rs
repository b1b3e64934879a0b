//! Flight-level configuration: which levels of the document hierarchy a
//! workspace uses between the vision and its tasks.

use vstd::prelude::*;
use crate::text::{chars_of, str_is};

verus! {

/// Which optional hierarchy levels are enabled.
#[derive(Clone, Copy, Debug, PartialEq, Eq, Structural)]
pub struct FlightLevelConfig {
    pub strategies_enabled: bool,
    pub initiatives_enabled: bool,
}

/// Why a flight-level configuration was refused.
#[derive(Clone, Copy, Debug, PartialEq, Eq, Structural)]
pub enum ConfigurationError {
    /// Strategies need initiatives beneath them.
    StrategiesWithoutInitiatives,
}

/// The named presets and the one combination that is refused.
pub open spec fn config_is_valid(strategies_enabled: bool, initiatives_enabled: bool) -> bool {
    !(strategies_enabled && !initiatives_enabled)
}

/// The preset names: `full` (Vision → Strategy → Initiative → Task),
/// `streamlined` (Vision → Initiative → Task) and `direct` (Vision → Task).
pub open spec fn preset_of(c: FlightLevelConfig) -> Seq<char> {
    if c.strategies_enabled && c.initiatives_enabled {
        "full"@
    } else if !c.strategies_enabled && c.initiatives_enabled {
        "streamlined"@
    } else if !c.strategies_enabled && !c.initiatives_enabled {
        "direct"@
    } else {
        "invalid"@
    }
}

impl FlightLevelConfig {
    /// Vision → Strategy → Initiative → Task.
    pub fn full() -> (res: Self)
        ensures
            res.strategies_enabled && res.initiatives_enabled,
    {
        FlightLevelConfig { strategies_enabled: true, initiatives_enabled: true }
    }

    /// Vision → Initiative → Task (the default).
    pub fn streamlined() -> (res: Self)
        ensures
            !res.strategies_enabled && res.initiatives_enabled,
    {
        FlightLevelConfig { strategies_enabled: false, initiatives_enabled: true }
    }

    /// Vision → Task.
    pub fn direct() -> (res: Self)
        ensures
            !res.strategies_enabled && !res.initiatives_enabled,
    {
        FlightLevelConfig { strategies_enabled: false, initiatives_enabled: false }
    }

    /// A configuration with the given levels; strategies without initiatives are refused.
    pub fn new(strategies_enabled: bool, initiatives_enabled: bool) -> (res: Result<Self, ConfigurationError>)
        ensures
            res is Ok <==> config_is_valid(strategies_enabled, initiatives_enabled),
            res matches Ok(c) ==> c.strategies_enabled == strategies_enabled
                && c.initiatives_enabled == initiatives_enabled,
            res matches Err(e) ==> e == ConfigurationError::StrategiesWithoutInitiatives,
    {
        if strategies_enabled && !initiatives_enabled {
            Err(ConfigurationError::StrategiesWithoutInitiatives)
        } else {
            Ok(FlightLevelConfig { strategies_enabled, initiatives_enabled })
        }
    }

    /// The name of the preset this configuration matches.
    pub fn preset_name(&self) -> (res: &'static str)
        ensures
            res@ == preset_of(*self),
    {
        if self.strategies_enabled && self.initiatives_enabled {
            "full"
        } else if !self.strategies_enabled && self.initiatives_enabled {
            "streamlined"
        } else if !self.strategies_enabled && !self.initiatives_enabled {
            "direct"
        } else {
            "invalid"
        }
    }
}

/// The configuration of a named preset.
pub open spec fn preset_named(name: Seq<char>) -> Option<FlightLevelConfig> {
    if name == "full"@ {
        Some(FlightLevelConfig { strategies_enabled: true, initiatives_enabled: true })
    } else if name == "streamlined"@ {
        Some(FlightLevelConfig { strategies_enabled: false, initiatives_enabled: true })
    } else if name == "direct"@ {
        Some(FlightLevelConfig { strategies_enabled: false, initiatives_enabled: false })
    } else {
        None
    }
}

/// The levels of the hierarchy a configuration uses, from the top, joined by arrows.
pub open spec fn hierarchy_of(c: FlightLevelConfig) -> Seq<char> {
    "Vision"@ + (if c.strategies_enabled { " → Strategy"@ } else { Seq::empty() }) + (if c.initiatives_enabled {
        " → Initiative"@
    } else {
        Seq::empty()
    }) + " → Task"@
}

impl FlightLevelConfig {
    /// The configuration of the preset `name` (`full`, `streamlined` or `direct`).
    pub fn from_preset(name: &str) -> (res: Option<Self>)
        ensures
            res == preset_named(name@),
    {
        if str_is(name, &chars_of("full")) {
            Some(FlightLevelConfig::full())
        } else if str_is(name, &chars_of("streamlined")) {
            Some(FlightLevelConfig::streamlined())
        } else if str_is(name, &chars_of("direct")) {
            Some(FlightLevelConfig::direct())
        } else {
            None
        }
    }

    /// The hierarchy this configuration uses, such as `Vision → Initiative → Task`.
    pub fn hierarchy_display(&self) -> (res: String)
        ensures
            res@ == hierarchy_of(*self),
    {
        let mut out = chars_of("Vision");
        if self.strategies_enabled {
            out = crate::paths::concat_chars(&out, &chars_of(" → Strategy"));
        }
        if self.initiatives_enabled {
            out = crate::paths::concat_chars(&out, &chars_of(" → Initiative"));
        }
        out = crate::paths::concat_chars(&out, &chars_of(" → Task"));
        crate::text::string_from_chars(&out)
    }
}

/// Every allowed configuration is one of the three presets, and the preset
/// named after it is the configuration itself.
pub proof fn law_preset_name_round_trip(c: FlightLevelConfig)
    requires
        config_is_valid(c.strategies_enabled, c.initiatives_enabled),
    ensures
        preset_named(preset_of(c)) == Some(c),
{
    reveal_strlit("full");
    reveal_strlit("streamlined");
    reveal_strlit("direct");
    assert("full"@.len() == 4 && "streamlined"@.len() == 11 && "direct"@.len() == 6);
    assert("full"@ != "streamlined"@ && "full"@ != "direct"@ && "streamlined"@ != "direct"@);
}

} // verus!
