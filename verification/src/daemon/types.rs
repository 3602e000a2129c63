//! What the daemon tells its clients and hears from its plugins.
use vstd::prelude::*;

verus! {

/// What the daemon knows of a plugin.
pub struct PluginInfoDto {
    pub pid: u32,
    pub name: String,
    pub plugin_uuid: [u8; 16],
    pub status: bool,
    pub path: String,
    pub functions: Vec<String>,
}

/// What a plugin's runner reported.
pub enum PluginEvent {
    /// The answer to a call.
    Result { pid: u32, request_id: u32, ok: bool, output: String },
    /// A call failed.
    Error { pid: u32, request_id: u32, message: String },
    /// The runner is alive.
    Heartbeat { pid: u32 },
    /// The runner's connection closed.
    Closed { pid: u32, reason: String },
}

/// The daemon's answer to a client's request.
pub enum InterfaceResponse {
    /// The request was done.
    Done,
    CallAccepted { request_id: u32 },
    Plugins { request_id: u32, plugins: Vec<PluginInfoDto> },
    Error { request_id: u32, message: String },
    CallResult { request_id: u32, ok: bool, output: String },
    SwitchDone { request_id: u32, enable: bool },
}

} // verus!
