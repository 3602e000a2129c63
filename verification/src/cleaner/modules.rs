//! The cleaner modules that plan nothing yet: their reports are empty.
use vstd::prelude::*;
use crate::cleaner::reports::{ModuleReport, is_empty_report};

verus! {

/// The log cleaner module.
pub struct LogsCleaner;

impl LogsCleaner {
    pub fn new() -> (r: LogsCleaner) {
        LogsCleaner
    }

    /// The module's id.
    pub fn id(&self) -> (r: &'static str)
        ensures
            r@ == "logs"@,
    {
        "logs"
    }

    /// The module's description.
    pub fn description(&self) -> (r: &'static str)
        ensures
            r@ == "Clean system and user logs directories."@,
    {
        "Clean system and user logs directories."
    }

    /// A run reports nothing done.
    pub fn run(&self) -> (r: ModuleReport)
        ensures
            is_empty_report(r, "logs"@),
    {
        ModuleReport::empty(self.id())
    }
}

/// The package cache cleaner module.
pub struct PackagesCleaner;

impl PackagesCleaner {
    pub fn new() -> (r: PackagesCleaner) {
        PackagesCleaner
    }

    /// The module's id.
    pub fn id(&self) -> (r: &'static str)
        ensures
            r@ == "packages"@,
    {
        "packages"
    }

    /// The module's description.
    pub fn description(&self) -> (r: &'static str)
        ensures
            r@ == "Clean package manager caches and unused packages."@,
    {
        "Clean package manager caches and unused packages."
    }

    /// A run reports nothing done.
    pub fn run(&self) -> (r: ModuleReport)
        ensures
            is_empty_report(r, "packages"@),
    {
        ModuleReport::empty(self.id())
    }
}

/// The large-file scanner module.
pub struct BigfilesScanner;

impl BigfilesScanner {
    pub fn new() -> (r: BigfilesScanner) {
        BigfilesScanner
    }

    /// The module's id (with its leading space).
    pub fn id(&self) -> (r: &'static str)
        ensures
            r@ == " bigfiles"@,
    {
        " bigfiles"
    }

    /// The module's description.
    pub fn description(&self) -> (r: &'static str)
        ensures
            r@ == "Scan and clean large unused files."@,
    {
        "Scan and clean large unused files."
    }

    /// A run reports nothing done.
    pub fn run(&self) -> (r: ModuleReport)
        ensures
            is_empty_report(r, " bigfiles"@),
    {
        ModuleReport::empty(self.id())
    }
}

} // verus!
