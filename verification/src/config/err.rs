//! Errors generated when parsing a configuration file.

use vstd::prelude::*;

verus! {

/// Error generated when parsing a configuration file.
#[derive(Debug, PartialEq, Eq)]
pub enum ConfigErr {
    /// A key has a corresponding value that is invalid.
    InvalidConfigValue { path: String, value: String },
}

} // verus!
