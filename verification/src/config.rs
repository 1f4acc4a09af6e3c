//! The settings of the version classifier, as a project configures them.

use vstd::prelude::*;
use crate::version::VersionOptions;

verus! {

/// The configuration of a project.
#[derive(Debug, Clone)]
pub struct Config {
    pub version: VersionConfig,
}

/// The `[version]` table of the configuration.
#[derive(Debug, Clone, Copy)]
pub struct VersionConfig {
    pub allow_yy_calver: bool,
    pub year_min: i32,
    pub year_max: i32,
}

/// Whether two-digit years are read as calendar years where nothing is
/// configured.
pub fn default_allow_yy() -> (r: bool)
    ensures
        r == false,
{
    false
}

/// The least year where nothing is configured.
pub fn default_year_min() -> (r: i32)
    ensures
        r == 2000,
{
    2000
}

/// The greatest year where nothing is configured.
pub fn default_year_max() -> (r: i32)
    ensures
        r == 2199,
{
    2199
}

impl Default for VersionConfig {
    fn default() -> (r: Self)
        ensures
            r.allow_yy_calver == false,
            r.year_min == 2000,
            r.year_max == 2199,
    {
        Self {
            allow_yy_calver: default_allow_yy(),
            year_min: default_year_min(),
            year_max: default_year_max(),
        }
    }
}

impl Default for Config {
    fn default() -> (r: Self)
        ensures
            r.version.allow_yy_calver == false,
            r.version.year_min == 2000,
            r.version.year_max == 2199,
    {
        Self { version: VersionConfig::default() }
    }
}

/// The options of a classification.
///
/// A flag given on the command line decides whether two-digit years are
/// allowed; without one the configuration decides, and without a
/// configuration they are not. The bounds come from the configuration, and
/// are 2000 and 2199 without one.
pub open spec fn options_of(flag: Option<bool>, config: Option<Config>) -> VersionOptions {
    VersionOptions {
        allow_yy_calver: match flag {
            Some(allow) => allow,
            None => match config {
                Some(cfg) => cfg.version.allow_yy_calver,
                None => false,
            },
        },
        year_min: match config {
            Some(cfg) => cfg.version.year_min,
            None => 2000,
        },
        year_max: match config {
            Some(cfg) => cfg.version.year_max,
            None => 2199,
        },
    }
}

/// The options of a classification: see [`options_of`].
pub fn version_options(flag: Option<bool>, config: Option<&Config>) -> (r: VersionOptions)
    ensures
        r == options_of(
            flag,
            match config {
                Some(cfg) => Some(*cfg),
                None => None,
            },
        ),
{
    let allow_yy_calver = match flag {
        Some(allow) => allow,
        None => match config {
            Some(cfg) => cfg.version.allow_yy_calver,
            None => false,
        },
    };
    let year_min = match config {
        Some(cfg) => cfg.version.year_min,
        None => 2000,
    };
    let year_max = match config {
        Some(cfg) => cfg.version.year_max,
        None => 2199,
    };
    VersionOptions { allow_yy_calver, year_min, year_max }
}

/// What the search for the configuration file does at a directory.
#[derive(Debug, Clone, Copy, PartialEq, Eq, Structural)]
pub enum SearchStep {
    /// Read the configuration file of this directory.
    Read,
    /// Go on with the parent directory.
    Up,
    /// Give up and take the defaults.
    Stop,
}

/// The step of the search at a directory: its configuration file is read
/// where it has one; else the search ends at the root of the repository and
/// where there is no parent, and goes up everywhere else.
pub fn search_step(has_config: bool, is_root: bool, has_parent: bool) -> (r: SearchStep)
    ensures
        r == if has_config {
            SearchStep::Read
        } else if is_root || !has_parent {
            SearchStep::Stop
        } else {
            SearchStep::Up
        },
{
    if has_config {
        SearchStep::Read
    } else if is_root || !has_parent {
        SearchStep::Stop
    } else {
        SearchStep::Up
    }
}

} // verus!
