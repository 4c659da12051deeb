//! Argument parsing and report formatting for the command-line interface.

pub mod doctor;
pub mod limits;
pub mod logs;
pub mod projects;
pub mod providers;
pub mod share;
pub mod smoke_test;
