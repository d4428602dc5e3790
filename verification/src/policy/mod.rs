//! Retention policies and what they decide.
pub mod config;
pub mod engine;
pub mod cache_engine;
pub mod run_engine;
pub mod planner;
