//! Coupling analysis of a code base: which files and functions change
//! together in version-control history, which call each other, and how risky
//! a change to one of them is for the others.

pub mod text;
pub mod ratio;
pub mod analyzer;
pub mod git_engine;
pub mod db;
pub mod tui;
pub mod report;
