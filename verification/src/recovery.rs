//! Recovering a workspace's configuration into its database: which settings
//! are out of step, and whether the database needs recovery at all.

use vstd::prelude::*;
use crate::config::FlightLevelConfig;
use crate::paths::{join, path_join};
use crate::text::{chars_eq, chars_of, opt_view};

verus! {

/// What a configuration recovery did.
#[derive(Debug, Clone, Copy, PartialEq, Eq, Structural)]
pub struct RecoveryReport {
    /// `config.toml` was created from the database.
    pub config_file_created: bool,
    /// The project prefix was written to the database.
    pub prefix_synced: bool,
    /// The flight levels were written to the database.
    pub flight_levels_synced: bool,
    /// How many short-code counters were raised.
    pub counters_recovered: usize,
}

/// Recovers configuration from the workspace files.
pub struct ConfigurationRecoveryService;

/// The settings the database must be brought in line with.
#[derive(Debug, Clone, Copy, PartialEq, Eq, Structural)]
pub struct ConfigSyncPlan {
    /// The project prefix differs (or the database has none).
    pub sync_prefix: bool,
    /// The flight levels differ.
    pub sync_flight_levels: bool,
}

impl RecoveryReport {
    /// A report of nothing done.
    pub fn new() -> (res: Self)
        ensures
            !res.config_file_created && !res.prefix_synced && !res.flight_levels_synced && res.counters_recovered == 0,
    {
        RecoveryReport { config_file_created: false, prefix_synced: false, flight_levels_synced: false, counters_recovered: 0 }
    }

    /// Whether the recovery changed anything.
    pub fn had_recovery_actions(&self) -> (res: bool)
        ensures
            res == (self.config_file_created || self.prefix_synced || self.flight_levels_synced || self.counters_recovered > 0),
    {
        self.config_file_created || self.prefix_synced || self.flight_levels_synced || self.counters_recovered > 0
    }
}

impl ConfigurationRecoveryService {
    /// The database of a workspace folder.
    pub fn db_path(workspace_dir: &str) -> (res: String)
        ensures
            res@ == path_join(workspace_dir@, "metis.db"@),
    {
        join(workspace_dir, "metis.db")
    }

    /// The configuration file of a workspace folder.
    pub fn config_file_path(workspace_dir: &str) -> (res: String)
        ensures
            res@ == path_join(workspace_dir@, "config.toml"@),
    {
        join(workspace_dir, "config.toml")
    }

    /// Whether the database needs recovery: it is missing, or it exists but
    /// cannot be opened.
    pub fn needs_recovery(db_exists: bool, db_opens: bool) -> (res: bool)
        ensures
            res == (!db_exists || !db_opens),
    {
        !db_exists || !db_opens
    }

    /// What must be written to the database so that it matches the
    /// configuration file: the prefix when the database has another or none, and
    /// the flight levels when they differ.
    pub fn plan_config_sync(
        db_prefix: &Option<String>,
        file_prefix: &str,
        db_levels: FlightLevelConfig,
        file_levels: FlightLevelConfig,
    ) -> (res: ConfigSyncPlan)
        ensures
            res.sync_prefix == (opt_view(*db_prefix) != Some(file_prefix@)),
            res.sync_flight_levels == (db_levels != file_levels),
    {
        let sync_prefix = match db_prefix {
            Some(p) => !chars_eq(&chars_of(p.as_str()), &chars_of(file_prefix)),
            None => true,
        };
        let sync_flight_levels = db_levels.strategies_enabled != file_levels.strategies_enabled
            || db_levels.initiatives_enabled != file_levels.initiatives_enabled;
        ConfigSyncPlan { sync_prefix, sync_flight_levels }
    }

    /// The prefix a new configuration file takes from the database: the stored
    /// prefix, or `PROJ` when there is none.
    pub fn prefix_or_default(db_prefix: Option<String>) -> (res: String)
        ensures
            res@ == match db_prefix {
                Some(p) => p@,
                None => "PROJ"@,
            },
    {
        match db_prefix {
            Some(p) => p,
            None => "PROJ".to_owned(),
        }
    }

    /// The report of a recovery: whether the file was created, what was synced,
    /// and how many counters were raised (one per counter that was below the
    /// highest short code found on disk).
    pub fn report(config_file_created: bool, plan: ConfigSyncPlan, counters_raised: &Vec<bool>) -> (res: RecoveryReport)
        ensures
            res.config_file_created == config_file_created,
            res.prefix_synced == plan.sync_prefix,
            res.flight_levels_synced == plan.sync_flight_levels,
            res.counters_recovered == counters_raised@.filter(|b: bool| b).len(),
    {
        let mut count: usize = 0;
        let mut i: usize = 0;
        while i < counters_raised.len()
            invariant
                i <= counters_raised@.len(),
                count == counters_raised@.take(i as int).filter(|b: bool| b).len(),
                count <= i,
            decreases counters_raised@.len() - i,
        {
            proof {
                let s = counters_raised@.take(i + 1);
                assert(s.drop_last() =~= counters_raised@.take(i as int));
                counters_raised@.take(i as int).lemma_filter_push(counters_raised@[i as int], |b: bool| b);
                assert(s =~= counters_raised@.take(i as int).push(counters_raised@[i as int]));
            }
            if counters_raised[i] {
                count = count + 1;
            }
            i = i + 1;
        }
        assert(counters_raised@.take(counters_raised@.len() as int) =~= counters_raised@);
        RecoveryReport {
            config_file_created,
            prefix_synced: plan.sync_prefix,
            flight_levels_synced: plan.sync_flight_levels,
            counters_recovered: count,
        }
    }
}

} // verus!
