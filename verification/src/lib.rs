//! Verified core logic of the Griffon security toolbox.
pub mod text;
pub mod wire;
pub mod paths;
pub mod sorting;
pub mod table;
pub mod runner;
pub mod cleaner;
pub mod scanner;
pub mod daemon;
pub mod gui;
pub mod cli;
pub mod installer;
pub mod containers;
