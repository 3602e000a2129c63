//! The antivirus scanner plugin: threat categories, scan options and reports, the
//! signature database, the choice of files to scan, the quarantine and the engine's
//! life cycle.
pub mod category;
pub mod args;
pub mod data_type;
pub mod hashing;
pub mod walk;
pub mod scan_file;
pub mod engine;
pub mod scan_engine;
pub mod quarantine;
pub mod updater;
pub mod archive;
pub mod plugin;
pub mod content;
