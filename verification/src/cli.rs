//! The resolved command-line arguments handed to this library by the entry
//! point; reading them from the process environment lives with the caller.

use vstd::prelude::*;

verus! {

/// The command-line arguments of an interpreter invocation.
#[derive(Debug, Clone, PartialEq, Eq)]
pub struct CommandLineArgs {
    /// The path of the configuration file.
    pub config: String,
    /// The path of the source file to interpret.
    pub input: String,
    /// Whether to print the parsed program.
    pub print_program: Option<bool>,
}

} // verus!
