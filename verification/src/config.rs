//! Global program configuration data.
//!
//! Reading a configuration file and decoding its contents live with the
//! caller at the process boundary; this module holds the decoded values and
//! their defaults.

pub mod err;
pub mod verbosity;

use vstd::prelude::*;

use crate::config::verbosity::Verbosity;

verus! {

/// Global program configurations.
#[derive(Debug)]
pub struct Config {
    /// The verbosity configurations to apply when logging messages.
    pub verbosity: Verbosity,
}

impl Default for Config {
    /// The configuration used when no configuration file is available.
    fn default() -> (r: Self)
        ensures
            r.verbosity == Verbosity::default_spec(),
    {
        Config { verbosity: Verbosity::default() }
    }
}

} // verus!
