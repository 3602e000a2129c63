//! What a plugin's manifest declares: the plugin itself and the sections of its interface.
use vstd::prelude::*;

verus! {

/// A plugin manifest: the plugin and its interface.
pub struct PluginManifest {
    pub plugin: Plugin,
    pub ui: UI,
}

/// The plugin as its manifest describes it; `id` is its uuid.
pub struct Plugin {
    pub name: String,
    pub id: String,
    pub version: String,
    pub author: String,
    pub description: String,
    pub tabs: Vec<String>,
}

/// The interface of a plugin: its sections.
pub struct UI {
    pub sections: Vec<Section>,
}

/// A section of a plugin's interface, and the tab it belongs to.
pub struct Section {
    pub id: String,
    pub tab: String,
}

} // verus!
