//! The command-line surface of the tool, as plain data. Argument parsing
//! happens outside the library; these types carry the parsed values.

use vstd::prelude::*;

verus! {

/// The supported subcommands.
pub enum Commands {
    /// Build and package a plugin: compile, encode to a component, and
    /// write the final artifact.
    Build {
        /// The workspace package name; read from the project configuration
        /// when absent.
        package: Option<String>,
        /// The compilation target triple.
        target: String,
        /// Whether to build in release mode.
        release: bool,
        /// Force mode: continue past SDK mismatches and non-fatal contract
        /// violations.
        force: bool,
        /// Debug mode: keep symbols and print detailed logs.
        debug: bool,
    },
}

/// The parsed command line.
pub struct Cli {
    pub command: Commands,
}

} // verus!
