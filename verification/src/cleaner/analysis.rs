//! The records of a cleaning run's analysis that hold no measured rates.
use vstd::prelude::*;

verus! {

/// What a run was asked to clean.
pub struct CleanerSelectionSummary {
    pub profile: String,
    pub enabled_categories: Vec<String>,
    pub dry_run: bool,
}

/// How serious an event of a run is.
pub enum CleanerEventLevel {
    Info,
    Warning,
    Error,
}

/// What happened in an event of a run.
pub enum CleanerEventKind {
    RunStarted,
    RunFinished,
    ModuleStarted,
    ModuleFinished,
    PathScanned,
    FileDetected,
    FileDeleted,
    DeletionFailed,
    MetadataReadFailed,
    PermissionDenied,
    ModuleWarning,
    ModuleError,
}

/// One event of a run.
pub struct CleanerEvent {
    pub ts_unix_ms: u128,
    pub level: CleanerEventLevel,
    pub kind: CleanerEventKind,
    pub module_id: Option<String>,
    pub path: Option<String>,
    pub root_label: Option<String>,
    pub file_type: Option<String>,
    pub bytes: Option<u64>,
    pub message: Option<String>,
}

/// The counters of one module's run.
pub struct ModuleMetrics {
    pub duration_ms: u128,
    pub candidate_files_count: u64,
    pub deleted_files_count: u64,
    pub skipped_files_count: u64,
    pub missing_paths_count: u64,
    pub existing_paths_count: u64,
    pub warnings_total: u64,
    pub errors_total: u64,
    pub permission_denied_total: u64,
}

} // verus!
