//! Verified core of the BakeryOS preset manager: the preset model, the
//! stage planner and runner, the backup index and the preset configuration.

pub mod backup;
pub mod backup_run;
pub mod cli;
pub mod config;
pub mod error;
pub mod manager;
pub mod preset;
pub mod run;
pub mod sequence;
pub mod str_map;
pub mod text;
