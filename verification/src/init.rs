//! Decisions taken by `metis init`: the project prefix and the flight levels.

use vstd::prelude::*;
use crate::config::{config_is_valid, preset_named, preset_of, ConfigurationError, FlightLevelConfig};
use crate::text::{opt_view, byte_len, byte_len_min, chars_of, str_is, string_from_chars};

verus! {

/// The options of `metis init`.
pub struct InitCommand {
    /// Project name for the vision document.
    pub name: Option<String>,
    /// Project prefix for document short codes, up to 6 characters.
    pub prefix: Option<String>,
    /// Configuration preset (full, streamlined, direct).
    pub preset: Option<String>,
    /// Enable/disable strategies.
    pub strategies: Option<bool>,
    /// Enable/disable initiatives.
    pub initiatives: Option<bool>,
    /// Upstream central repo URL for multi-workspace sync.
    pub upstream: Option<String>,
    /// Workspace prefix: folder name in the central repo.
    pub workspace_prefix: Option<String>,
    /// Team label for multi-workspace views.
    pub team: Option<String>,
}

/// Why the init options were refused.
#[derive(Debug, PartialEq, Eq)]
pub enum InitError {
    /// The preset is none of `full`, `streamlined`, `direct`.
    InvalidPreset(String),
    /// The custom combination of levels is not allowed.
    InvalidConfiguration(ConfigurationError),
    /// Strategies were asked for without an upstream repository.
    StrategiesNeedUpstream,
    /// An upstream repository was given without a workspace prefix.
    WorkspacePrefixRequired,
}

/// The mathematical form of an `InitError`.
pub enum InitErrorView {
    InvalidPreset(Seq<char>),
    InvalidConfiguration(ConfigurationError),
    StrategiesNeedUpstream,
    WorkspacePrefixRequired,
}

impl View for InitError {
    type V = InitErrorView;

    open spec fn view(&self) -> InitErrorView {
        match self {
            InitError::InvalidPreset(s) => InitErrorView::InvalidPreset(s@),
            InitError::InvalidConfiguration(e) => InitErrorView::InvalidConfiguration(*e),
            InitError::StrategiesNeedUpstream => InitErrorView::StrategiesNeedUpstream,
            InitError::WorkspacePrefixRequired => InitErrorView::WorkspacePrefixRequired,
        }
    }
}

/// What `str::to_uppercase` returns: the uppercase equivalent of a string under
/// Unicode's `Uppercase` mapping.
pub uninterp spec fn unicode_uppercase(s: Seq<char>) -> Seq<char>;

/// Uppercases a string with `str::to_uppercase`, named by `unicode_uppercase`.
#[verifier::external_body]
fn to_uppercase(s: &str) -> (res: String)
    ensures
        res@ == unicode_uppercase(s@),
{
    s.to_uppercase()
}

/// What `char::is_alphabetic` reports: whether the character has Unicode's
/// `Alphabetic` property.
pub uninterp spec fn char_is_alphabetic(c: char) -> bool;

/// `char::is_alphabetic`, named by `char_is_alphabetic`.
#[verifier::external_body]
fn is_alphabetic(c: char) -> (res: bool)
    ensures
        res == char_is_alphabetic(c),
{
    c.is_alphabetic()
}

/// What `char::to_uppercase` yields: the characters of the uppercase mapping of `c`.
pub uninterp spec fn char_uppercase(c: char) -> Seq<char>;

/// The characters `char::to_uppercase` yields for `c`, named by `char_uppercase`.
#[verifier::external_body]
fn char_to_uppercase(c: char) -> (res: Vec<char>)
    ensures
        res@ == char_uppercase(c),
{
    c.to_uppercase().collect()
}

/// The alphabetic characters of `s`, each replaced by its uppercase mapping.
pub open spec fn alphabetic_uppercased(s: Seq<char>) -> Seq<char>
    decreases s.len(),
{
    if s.len() == 0 {
        Seq::empty()
    } else {
        alphabetic_uppercased(s.drop_last()) + if char_is_alphabetic(s.last()) {
            char_uppercase(s.last())
        } else {
            Seq::empty()
        }
    }
}

/// The prefix `metis init` gives document short codes.
///
/// An explicit prefix is uppercased and cut to its first six characters when it is
/// longer than six bytes. Otherwise the prefix is made from the project name: the
/// first (up to) six characters of its alphabetic characters, uppercased; `PROJ`
/// when the name has no alphabetic character.
pub open spec fn project_prefix(explicit: Option<Seq<char>>, project_name: Seq<char>) -> Seq<char> {
    match explicit {
        Some(p) => {
            let u = unicode_uppercase(p);
            if byte_len(u) > 6 {
                if u.len() <= 6 { u } else { u.take(6) }
            } else {
                u
            }
        },
        None => {
            let u = alphabetic_uppercased(project_name);
            if u.len() == 0 {
                "PROJ"@
            } else if u.len() <= 6 {
                u
            } else {
                u.take(6)
            }
        },
    }
}

/// The configuration `metis init` chooses from its options.
pub open spec fn chosen_flight_config(
    preset: Option<Seq<char>>,
    strategies: Option<bool>,
    initiatives: Option<bool>,
) -> Result<FlightLevelConfig, InitErrorView> {
    match preset {
        Some(name) => if name == "full"@ {
            Ok(FlightLevelConfig { strategies_enabled: true, initiatives_enabled: true })
        } else if name == "streamlined"@ {
            Ok(FlightLevelConfig { strategies_enabled: false, initiatives_enabled: true })
        } else if name == "direct"@ {
            Ok(FlightLevelConfig { strategies_enabled: false, initiatives_enabled: false })
        } else {
            Err(InitErrorView::InvalidPreset(name))
        },
        None => if strategies is Some || initiatives is Some {
            let s = match strategies { Some(b) => b, None => false };
            let i = match initiatives { Some(b) => b, None => true };
            if config_is_valid(s, i) {
                Ok(FlightLevelConfig { strategies_enabled: s, initiatives_enabled: i })
            } else {
                Err(InitErrorView::InvalidConfiguration(ConfigurationError::StrategiesWithoutInitiatives))
            }
        } else {
            Ok(FlightLevelConfig { strategies_enabled: false, initiatives_enabled: true })
        },
    }
}

/// The view of a configuration result.
pub open spec fn flight_result_view(r: Result<FlightLevelConfig, InitError>) -> Result<FlightLevelConfig, InitErrorView> {
    match r {
        Ok(c) => Ok(c),
        Err(e) => Err(e@),
    }
}

impl InitCommand {
    /// The short-code prefix for a project called `project_name`.
    pub fn determine_project_prefix(&self, project_name: &str) -> (res: String)
        ensures
            res@ == project_prefix(opt_view(self.prefix), project_name@),
    {
        match &self.prefix {
            Some(prefix) => {
                let upper = to_uppercase(prefix.as_str());
                let cs = chars_of(upper.as_str());
                if byte_len_min(&cs, 7) == 7 {
                    let mut out: Vec<char> = Vec::new();
                    let mut i: usize = 0;
                    let n: usize = if cs.len() < 6 { cs.len() } else { 6 };
                    while i < n
                        invariant
                            i <= n <= cs@.len(),
                            n == if cs@.len() < 6 { cs@.len() as int } else { 6 },
                            out@ == cs@.take(i as int),
                        decreases n - i,
                    {
                        out.push(cs[i]);
                        assert(cs@.take(i as int + 1) =~= cs@.take(i as int).push(cs@[i as int]));
                        i = i + 1;
                    }
                    assert(cs@.take(cs@.len() as int) =~= cs@);
                    string_from_chars(&out)
                } else {
                    upper
                }
            },
            None => {
                let name = chars_of(project_name);
                let mut u: Vec<char> = Vec::new();
                let mut i: usize = 0;
                while i < name.len()
                    invariant
                        i <= name@.len(),
                        u@ == alphabetic_uppercased(name@.take(i as int)),
                    decreases name@.len() - i,
                {
                    let c = name[i];
                    assert(name@.take(i as int + 1).drop_last() =~= name@.take(i as int));
                    if is_alphabetic(c) {
                        let up = char_to_uppercase(c);
                        let mut j: usize = 0;
                        let ghost before = u@;
                        while j < up.len()
                            invariant
                                j <= up@.len(),
                                u@ == before + up@.take(j as int),
                            decreases up@.len() - j,
                        {
                            u.push(up[j]);
                            assert(up@.take(j as int + 1) =~= up@.take(j as int).push(up@[j as int]));
                            j = j + 1;
                        }
                        assert(up@.take(up@.len() as int) =~= up@);
                    } else {
                        assert(u@ =~= u@ + Seq::<char>::empty());
                    }
                    i = i + 1;
                }
                assert(name@.take(name@.len() as int) =~= name@);
                if u.len() == 0 {
                    return "PROJ".to_owned();
                }
                let n: usize = if u.len() < 6 { u.len() } else { 6 };
                let mut out: Vec<char> = Vec::new();
                let mut k: usize = 0;
                while k < n
                    invariant
                        k <= n <= u@.len(),
                        out@ == u@.take(k as int),
                    decreases n - k,
                {
                    out.push(u[k]);
                    assert(u@.take(k as int + 1) =~= u@.take(k as int).push(u@[k as int]));
                    k = k + 1;
                }
                assert(u@.take(u@.len() as int) =~= u@);
                string_from_chars(&out)
            },
        }
    }

    /// The flight-level configuration chosen by the options: a named preset, a
    /// custom combination on top of the streamlined defaults, or streamlined.
    pub fn determine_flight_config(&self) -> (res: Result<FlightLevelConfig, InitError>)
        ensures
            flight_result_view(res) == chosen_flight_config(opt_view(self.preset), self.strategies, self.initiatives),
    {
        match &self.preset {
            Some(preset_name) => {
                if str_is(preset_name.as_str(), &chars_of("full")) {
                    Ok(FlightLevelConfig::full())
                } else if str_is(preset_name.as_str(), &chars_of("streamlined")) {
                    Ok(FlightLevelConfig::streamlined())
                } else if str_is(preset_name.as_str(), &chars_of("direct")) {
                    Ok(FlightLevelConfig::direct())
                } else {
                    Err(InitError::InvalidPreset(preset_name.clone()))
                }
            },
            None => {
                if self.strategies.is_some() || self.initiatives.is_some() {
                    let defaults = FlightLevelConfig::streamlined();
                    let strategies_enabled = match self.strategies { Some(b) => b, None => defaults.strategies_enabled };
                    let initiatives_enabled = match self.initiatives { Some(b) => b, None => defaults.initiatives_enabled };
                    match FlightLevelConfig::new(strategies_enabled, initiatives_enabled) {
                        Ok(c) => Ok(c),
                        Err(e) => Err(InitError::InvalidConfiguration(e)),
                    }
                } else {
                    Ok(FlightLevelConfig::streamlined())
                }
            },
        }
    }
}

/// The contents of the `.gitignore` written into a new workspace.
pub open spec fn workspace_gitignore() -> Seq<char> {
    "metis.db\nmetis-mcp-server.log\n"@
}

impl InitCommand {
    /// The project name: the one given, else `Project Vision`.
    pub fn project_name(&self) -> (res: String)
        ensures
            res@ == match self.name {
                Some(n) => n@,
                None => "Project Vision"@,
            },
    {
        match &self.name {
            Some(n) => n.clone(),
            None => "Project Vision".to_owned(),
        }
    }

    /// Strategies need multi-workspace sync: a configuration with strategies is
    /// refused unless an upstream repository is given.
    pub fn check_strategies_allowed(&self, flight: FlightLevelConfig) -> (res: Result<(), InitError>)
        ensures
            res is Ok <==> !(flight.strategies_enabled && self.upstream is None),
            res matches Err(e) ==> e == InitError::StrategiesNeedUpstream,
    {
        if flight.strategies_enabled && self.upstream.is_none() {
            Err(InitError::StrategiesNeedUpstream)
        } else {
            Ok(())
        }
    }

    /// The workspace prefix, which an init with an upstream repository needs.
    pub fn required_workspace_prefix(&self) -> (res: Result<String, InitError>)
        ensures
            match self.workspace_prefix {
                Some(p) => res matches Ok(q) && q@ == p@,
                None => res matches Err(e) && e == InitError::WorkspacePrefixRequired,
            },
    {
        match &self.workspace_prefix {
            Some(p) => Ok(p.clone()),
            None => Err(InitError::WorkspacePrefixRequired),
        }
    }

    /// The `.gitignore` of a new workspace: the database and the MCP server log.
    pub fn gitignore_content() -> (res: &'static str)
        ensures
            res@ == workspace_gitignore(),
    {
        "metis.db\nmetis-mcp-server.log\n"
    }
}


/// A preset named at `metis init` gives the configuration of the preset table,
/// whatever custom levels are also given, and that configuration is named by
/// the preset asked for; any other name is refused as an invalid preset.
pub proof fn law_init_preset_matches_table(name: Seq<char>, strategies: Option<bool>, initiatives: Option<bool>)
    ensures
        preset_named(name) matches Some(c) ==> chosen_flight_config(Some(name), strategies, initiatives)
            == Ok::<FlightLevelConfig, InitErrorView>(c) && preset_of(c) == name,
        preset_named(name) is None ==> chosen_flight_config(Some(name), strategies, initiatives)
            == Err::<FlightLevelConfig, InitErrorView>(InitErrorView::InvalidPreset(name)),
{
    reveal_strlit("full");
    reveal_strlit("streamlined");
    reveal_strlit("direct");
    assert("full"@.len() == 4 && "streamlined"@.len() == 11 && "direct"@.len() == 6);
    assert("full"@ != "streamlined"@ && "full"@ != "direct"@ && "streamlined"@ != "direct"@);
}

} // verus!
