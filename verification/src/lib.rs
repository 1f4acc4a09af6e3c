//! Maintains a managed block of badge markup inside a README and classifies
//! version strings as semantic or calendar versions.

pub mod badges;
pub mod cli;
pub mod commands;
pub mod config;
pub mod diff;
pub mod document;
pub mod laws;
pub mod lemmas;
pub mod manifest;
pub mod metadata;
pub mod project;
pub mod providers;
pub mod readme;
pub mod readme_badges;
pub mod readme_remove;
pub mod text;
pub mod tui;
pub mod version;
pub mod workflows;
