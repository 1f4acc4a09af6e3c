//! The commands of the program and their switches.

use vstd::prelude::*;

verus! {

/// A parsed command line.
#[derive(Debug, Clone)]
pub struct Cli {
    pub command: Commands,
}

/// The three commands.
#[derive(Debug, Clone)]
pub enum Commands {
    Add { yes: bool, only: Vec<String>, allow_yy_calver: bool, dry_run: bool, json: bool },
    List { json: bool, quiet: bool, allow_yy_calver: bool },
    Remove {
        all: bool,
        id: Vec<String>,
        kind: Vec<String>,
        strict: bool,
        quiet: bool,
        dry_run: bool,
        json: bool,
        allow_yy_calver: bool,
    },
}

} // verus!
