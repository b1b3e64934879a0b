//! The command line: its commands with their options, and the decisions the
//! commands take before and after the work they hand to the services.

use vstd::prelude::*;
use crate::config::{preset_named, ConfigurationError, FlightLevelConfig};
use crate::creation::CreationError;
use crate::init::InitCommand;
use crate::status::StatusCommand;
use crate::sync::SyncResult;
use crate::paths::concat_chars;
use crate::text::{
    byte_len, chars_of, decimal, decimal_chars, is_byte_boundary, kept_bytes, string_from_chars, truncate_chars,
    truncate_with, unicode_lowercase,
};
use crate::types::{parse_phase, phase_named, Phase};

verus! {

/// How verbose the log is.
#[derive(Clone, Copy, Debug, PartialEq, Eq, Structural)]
pub enum LogLevel {
    Warn,
    Info,
    Debug,
    Trace,
}

/// The command line of `metis`.
pub struct Cli {
    /// Increase verbosity (-v, -vv, -vvv).
    pub verbose: u8,
    pub command: Commands,
}

/// The commands of `metis`.
pub enum Commands {
    /// Initialize a new Metis workspace.
    Init(InitCommand),
    /// Synchronize workspace with file system.
    Sync(SyncCommand),
    /// Create new documents.
    Create(CreateCommand),
    /// Search documents in the workspace.
    Search(SearchCommand),
    /// Transition documents between phases.
    Transition(TransitionCommand),
    /// Show workspace status and actionable items.
    Status(StatusCommand),
    /// Archive completed documents and move them to archived folder.
    Archive(ArchiveCommand),
    /// Validate a document file.
    Validate(ValidateCommand),
    /// Launch the interactive TUI interface.
    Tui(TuiCommand),
    /// Launch the MCP server for external integrations.
    Mcp(McpCommand),
    /// Manage flight level configuration.
    Config(ConfigCommand),
}

/// The log level for a count of `-v` flags: warnings by default, then info,
/// debug, and trace for three or more.
pub open spec fn level_for(verbose: u8) -> LogLevel {
    if verbose == 0 {
        LogLevel::Warn
    } else if verbose == 1 {
        LogLevel::Info
    } else if verbose == 2 {
        LogLevel::Debug
    } else {
        LogLevel::Trace
    }
}

/// The log level for a count of `-v` flags.
pub fn level_for_verbosity(verbose: u8) -> (res: LogLevel)
    ensures
        res == level_for(verbose),
{
    match verbose {
        0 => LogLevel::Warn,
        1 => LogLevel::Info,
        2 => LogLevel::Debug,
        _ => LogLevel::Trace,
    }
}

impl Cli {
    /// The log level the `-v` flags ask for.
    pub fn log_level(&self) -> (res: LogLevel)
        ensures
            res == level_for(self.verbose),
    {
        level_for_verbosity(self.verbose)
    }
}

/// Synchronizes the workspace with the files.
pub struct SyncCommand {}

/// How many results of each kind a sync had.
#[derive(Clone, Copy, Debug, PartialEq, Eq, Structural)]
pub struct SyncSummary {
    pub imported: usize,
    pub updated: usize,
    pub deleted: usize,
    pub up_to_date: usize,
    pub errors: usize,
}

/// How results count in a summary: moves count as updates; a file found
/// nowhere counts in no column.
pub open spec fn summary_of(results: Seq<SyncResult>) -> SyncSummary
    decreases results.len(),
{
    if results.len() == 0 {
        SyncSummary { imported: 0, updated: 0, deleted: 0, up_to_date: 0, errors: 0 }
    } else {
        let s = summary_of(results.drop_last());
        match results.last() {
            SyncResult::Imported { .. } => SyncSummary { imported: (s.imported + 1) as usize, ..s },
            SyncResult::Updated { .. } => SyncSummary { updated: (s.updated + 1) as usize, ..s },
            SyncResult::Moved { .. } => SyncSummary { updated: (s.updated + 1) as usize, ..s },
            SyncResult::Deleted { .. } => SyncSummary { deleted: (s.deleted + 1) as usize, ..s },
            SyncResult::UpToDate { .. } => SyncSummary { up_to_date: (s.up_to_date + 1) as usize, ..s },
            SyncResult::Error { .. } => SyncSummary { errors: (s.errors + 1) as usize, ..s },
            SyncResult::NotFound { .. } => s,
        }
    }
}

/// All counts of a summary are at most `n`.
pub open spec fn summary_within(s: SyncSummary, n: int) -> bool {
    s.imported <= n && s.updated <= n && s.deleted <= n && s.up_to_date <= n && s.errors <= n
}

proof fn lemma_summary_within(results: Seq<SyncResult>)
    ensures
        summary_within(summary_of(results), results.len() as int),
    decreases results.len(),
{
    if results.len() > 0 {
        lemma_summary_within(results.drop_last());
    }
}

impl SyncCommand {
    /// Counts the results of a sync by kind.
    pub fn summarize(results: &Vec<SyncResult>) -> (res: SyncSummary)
        ensures
            res == summary_of(results@),
    {
        let mut s = SyncSummary { imported: 0, updated: 0, deleted: 0, up_to_date: 0, errors: 0 };
        let mut i: usize = 0;
        while i < results.len()
            invariant
                i <= results@.len(),
                s == summary_of(results@.take(i as int)),
            decreases results@.len() - i,
        {
            proof {
                assert(results@.take(i + 1).drop_last() =~= results@.take(i as int));
                lemma_summary_within(results@.take(i as int));
            }
            match &results[i] {
                SyncResult::Imported { .. } => s.imported = s.imported + 1,
                SyncResult::Updated { .. } => s.updated = s.updated + 1,
                SyncResult::Moved { .. } => s.updated = s.updated + 1,
                SyncResult::Deleted { .. } => s.deleted = s.deleted + 1,
                SyncResult::UpToDate { .. } => s.up_to_date = s.up_to_date + 1,
                SyncResult::Error { .. } => s.errors = s.errors + 1,
                SyncResult::NotFound { .. } => {},
            }
            i = i + 1;
        }
        assert(results@.take(results@.len() as int) =~= results@);
        s
    }
}

/// Refused when no workspace vault was found.
pub open spec fn no_workspace_message() -> Seq<char> {
    "Not in a Metis workspace. Run 'metis init' to create one."@
}

/// The end of a sync: success when no file failed, otherwise the failure
/// naming how many did.
pub open spec fn sync_finish(s: SyncSummary) -> Result<(), Seq<char>> {
    if s.errors > 0 {
        Err("Sync completed with "@ + decimal(s.errors as nat) + " errors"@)
    } else {
        Ok(())
    }
}

impl SyncCommand {
    /// The workspace a sync works on: the vault found, or the refusal to run
    /// outside a workspace.
    pub fn require_workspace(vault: Option<String>) -> (res: Result<String, String>)
        ensures
            match vault {
                Some(v) => res matches Ok(w) && w@ == v@,
                None => res matches Err(m) && m@ == no_workspace_message(),
            },
    {
        match vault {
            Some(v) => Ok(v),
            None => Err("Not in a Metis workspace. Run 'metis init' to create one.".to_owned()),
        }
    }

    /// How a sync ends, given its summary.
    pub fn finish(summary: &SyncSummary) -> (res: Result<(), String>)
        ensures
            match (res, sync_finish(*summary)) {
                (Ok(()), Ok(())) => true,
                (Err(m), Err(e)) => m@ == e,
                _ => false,
            },
    {
        if summary.errors > 0 {
            let n = decimal_chars(summary.errors as u64);
            Err(string_from_chars(&concat_chars(&concat_chars(&chars_of("Sync completed with "), &n), &chars_of(" errors"))))
        } else {
            Ok(())
        }
    }
}

/// How search results are shown.
#[derive(Clone, Copy, Debug, PartialEq, Eq, Structural)]
pub enum OutputFormat {
    Table,
    Compact,
    Json,
}

/// Full-text search across the documents.
pub struct SearchCommand {
    /// Search query for full-text search across document content.
    pub query: String,
    /// Maximum number of results to show.
    pub limit: usize,
    /// Output format (table, compact, json).
    pub format: OutputFormat,
}

/// Shortens `s` to `max_len` bytes for a table cell: a longer string keeps its
/// first `max_len - 3` bytes (none if `max_len` is below 3) followed by `...`.
pub fn truncate(s: &str, max_len: usize) -> (res: String)
    requires
        byte_len(s@) <= max_len || is_byte_boundary(s@, kept_bytes(max_len as int, 3)),
    ensures
        res@ == truncate_with(s@, max_len as int, 3, "..."@),
{
    truncate_chars(s, max_len, 3, &chars_of("..."))
}

impl SearchCommand {
    /// The results shown: the first `limit` of them.
    pub fn limit_results<T>(&self, results: Vec<T>) -> (res: Vec<T>)
        ensures
            res@ == results@.take(if results@.len() < self.limit { results@.len() as int } else { self.limit as int }),
    {
        let mut results = results;
        if results.len() > self.limit {
            results.truncate(self.limit);
        }
        results
    }
}

/// Moves a document to another phase.
pub struct TransitionCommand {
    /// Document short code to transition (e.g., PROJ-V-0001).
    pub short_code: String,
    /// Target phase; without it the document moves to its next phase.
    pub phase: Option<String>,
}

impl TransitionCommand {
    /// Reads a phase name given on the command line, in any case; an unknown
    /// name is refused with `Unknown phase: <name>`.
    pub fn parse_phase(&self, phase_str: &str) -> (res: Result<Phase, String>)
        ensures
            match res {
                Ok(p) => phase_named(unicode_lowercase(phase_str@)) == Some(p),
                Err(m) => phase_named(unicode_lowercase(phase_str@)) is None && m@ == "Unknown phase: "@ + phase_str@,
            },
    {
        match parse_phase(phase_str) {
            Some(p) => Ok(p),
            None => {
                let msg = crate::paths::concat_chars(&chars_of("Unknown phase: "), &chars_of(phase_str));
                Err(crate::text::string_from_chars(&msg))
            },
        }
    }
}

/// Archives a document and its children.
pub struct ArchiveCommand {
    /// Document ID to archive.
    pub document_id: String,
    /// Document type (vision, strategy, initiative, task, adr); found from the document if absent.
    pub document_type: Option<String>,
}

/// Validates a document file.
pub struct ValidateCommand {
    /// Path to the document file to validate.
    pub file_path: String,
}

/// Launches the terminal interface.
pub struct TuiCommand {}

/// Launches the MCP server.
pub struct McpCommand {
    /// Log level for the MCP server (trace, debug, info, warn, error).
    pub log_level: String,
}

/// Builds the code index.
pub struct IndexCommand {
    /// Only generate the project structure tree, skip symbol extraction.
    pub structure_only: bool,
    /// Enable incremental indexing (only re-index changed files).
    pub incremental: bool,
}

/// Manages the flight-level configuration.
pub struct ConfigCommand {
    pub action: ConfigAction,
}

/// What the configuration command does.
pub enum ConfigAction {
    /// Show current configuration.
    Show,
    /// Set configuration using a preset or custom values (`config set`).
    Change { preset: Option<String>, strategies: Option<bool>, initiatives: Option<bool> },
    /// Get a specific configuration value.
    Get { key: String },
}

/// Why a new configuration was refused.
#[derive(Debug, PartialEq, Eq)]
pub enum ConfigSetError {
    /// The preset is none of `full`, `streamlined`, `direct`.
    InvalidPreset(String),
    /// The custom combination of levels is not allowed.
    InvalidConfiguration(ConfigurationError),
    /// Neither a preset nor a level was given.
    NothingToSet,
}

/// What `config set` asks for.
#[derive(Debug, PartialEq, Eq)]
pub enum RequestedConfig {
    /// A named preset.
    Preset(FlightLevelConfig),
    /// Levels changed on top of the current configuration.
    Custom,
}

impl ConfigCommand {
    /// What `config set` asks for: a valid preset, or custom levels when at least
    /// one level is given; an unknown preset, or nothing given, is refused.
    pub fn change_requested(preset: &Option<String>, strategies: Option<bool>, initiatives: Option<bool>)
        -> (res: Result<RequestedConfig, ConfigSetError>)
        ensures
            match preset {
                Some(name) => match preset_named(name@) {
                    Some(c) => res == Ok::<RequestedConfig, ConfigSetError>(RequestedConfig::Preset(c)),
                    None => res matches Err(ConfigSetError::InvalidPreset(n)) && n@ == name@,
                },
                None => if strategies is Some || initiatives is Some {
                    res == Ok::<RequestedConfig, ConfigSetError>(RequestedConfig::Custom)
                } else {
                    res == Err::<RequestedConfig, ConfigSetError>(ConfigSetError::NothingToSet)
                },
            },
    {
        match preset {
            Some(name) => match FlightLevelConfig::from_preset(name.as_str()) {
                Some(c) => Ok(RequestedConfig::Preset(c)),
                None => Err(ConfigSetError::InvalidPreset(name.clone())),
            },
            None => {
                if strategies.is_some() || initiatives.is_some() {
                    Ok(RequestedConfig::Custom)
                } else {
                    Err(ConfigSetError::NothingToSet)
                }
            },
        }
    }

    /// The custom configuration: the levels given, the current ones otherwise;
    /// strategies without initiatives are refused.
    pub fn custom_config(current: FlightLevelConfig, strategies: Option<bool>, initiatives: Option<bool>)
        -> (res: Result<FlightLevelConfig, ConfigSetError>)
        ensures
            ({
                let s = match strategies { Some(b) => b, None => current.strategies_enabled };
                let i = match initiatives { Some(b) => b, None => current.initiatives_enabled };
                if s && !i {
                    res == Err::<FlightLevelConfig, ConfigSetError>(
                        ConfigSetError::InvalidConfiguration(ConfigurationError::StrategiesWithoutInitiatives),
                    )
                } else {
                    res == Ok::<FlightLevelConfig, ConfigSetError>(FlightLevelConfig { strategies_enabled: s, initiatives_enabled: i })
                }
            }),
    {
        let s = match strategies { Some(b) => b, None => current.strategies_enabled };
        let i = match initiatives { Some(b) => b, None => current.initiatives_enabled };
        match FlightLevelConfig::new(s, i) {
            Ok(c) => Ok(c),
            Err(e) => Err(ConfigSetError::InvalidConfiguration(e)),
        }
    }
}

/// Creates documents.
pub struct CreateCommand {
    pub document_type: CreateCommands,
}

/// The documents `create` makes.
pub enum CreateCommands {
    /// Create a new strategy document.
    Strategy { title: String, vision: Option<String> },
    /// Create a new initiative document.
    Initiative { title: String, strategy: String },
    /// Create a new task document.
    Task { title: String, initiative: String },
    /// Create a new ADR document.
    Adr { title: String },
}

} // verus!
