//! The system cleaner plugin: its request model, reports and the decisions of its modules.
pub mod command;
pub mod api;
pub mod reports;
pub mod config;
pub mod docker;
pub mod front_report;
pub mod analysis;
pub mod metrics;
pub mod cache_paths;
pub mod cache;
pub mod modules;
