//! The desktop front end: reading the plugin history, naming and listing plugins, and
//! installing them.
pub mod history;
pub mod listing;
pub mod manifests;
pub mod plugins;
