//! The daemon: plugin identifiers, settings, the plugin history, the plugin registry and
//! the answers it sends.
pub mod uuid_text;
pub mod settings;
pub mod types;
pub mod history;
pub mod registry;
pub mod dispatch;
