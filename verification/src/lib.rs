//! Verified core of the Metis document workspace: phases and their
//! transitions, flight-level configuration, workspace paths, document
//! layout rules and the decisions behind synchronization and reporting.

pub mod text;
pub mod types;
pub mod paths;
pub mod disk;
pub mod detection;
pub mod models;
pub mod reassignment;
pub mod status;
pub mod config;
pub mod init;
pub mod transition;
pub mod order;
pub mod layout;
pub mod filesystem;
pub mod flush;
pub mod git;
pub mod creation;
pub mod sync;
pub mod archive;
pub mod deletion;
pub mod discovery;
pub mod migration;
pub mod recovery;
pub mod commands;
