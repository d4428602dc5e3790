//! Decision logic of a GitHub Actions housekeeper, verified with Verus.
pub mod account_usage;
pub mod account_usage_monitoring;
pub mod agent;
pub mod allowance;
pub mod cache_purge;
pub mod cleanup;
pub mod daemon;
pub mod execution;
pub mod format;
pub mod github;
pub mod glob;
pub mod inventory;
pub mod ipc;
pub mod labels;
pub mod listing;
pub mod model;
pub mod monitoring;
pub mod order;
pub mod policy;
pub mod quantity;
pub mod report;
pub mod revalidation;
pub mod run_protection;
pub mod run_purge;
pub mod run_purge_execution;
pub mod run_purge_flow;
pub mod table;
pub mod text;
pub mod time;
pub mod totals;
pub mod value;
