//! Verified core of the reeve agent runtime.

pub mod agent;
pub mod agent_fs;
pub mod agent_model;
pub mod agent_registry;
pub mod atomic_file;
pub mod audit;
pub mod blacklist;
pub mod capability;
pub mod config;
pub mod conversation;
pub mod daemon;
pub mod delivery;
pub mod dispatcher;
pub mod engagement;
pub mod estate;
pub mod fs_util;
pub mod history;
pub mod identity;
pub mod io_error;
pub mod journal;
pub mod keypair;
pub mod migration;
pub mod orders;
pub mod paths;
pub mod recall;
pub mod resume;
pub mod seen_ids;
pub mod startup;
pub mod team;
pub mod telling;
pub mod text;
pub mod turns;
