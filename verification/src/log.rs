//! Logging decisions according to predefined logging verbosity levels.
//!
//! This module decides which messages are printed; the printing itself is a
//! process-boundary concern and lives with the caller, which asks the logger
//! before emitting a message of a given priority.

use vstd::prelude::*;

use crate::config::Config;
use crate::config::verbosity::VerbosityLevel;

verus! {

/// Decides, from a configuration, which logging messages are emitted.
pub struct Logger<'a> {
    config: &'a Config,
}

impl<'a> Logger<'a> {
    /// The configuration this logger decides from.
    pub closed spec fn config_spec(&self) -> Config {
        *self.config
    }

    /// Constructs a new logger deciding from the specified configuration.
    pub fn new_for(config: &'a Config) -> (r: Logger<'a>)
        ensures
            r.config_spec() == *config,
    {
        Logger { config }
    }

    /// Whether a message of high priority is emitted.
    pub fn high(&self) -> (r: bool)
        ensures
            r == (!self.config_spec().verbosity.enabled && self.config_spec().verbosity.level
                == VerbosityLevel::High),
    {
        if self.config.verbosity.enabled {
            return false;
        }
        match self.config.verbosity.level {
            VerbosityLevel::High => true,
            _ => false,
        }
    }

    /// Whether a message of medium priority is emitted.
    pub fn medium(&self) -> (r: bool)
        ensures
            r == (!self.config_spec().verbosity.enabled && (self.config_spec().verbosity.level
                == VerbosityLevel::High || self.config_spec().verbosity.level
                == VerbosityLevel::Medium)),
    {
        if self.config.verbosity.enabled {
            return false;
        }
        match self.config.verbosity.level {
            VerbosityLevel::High => true,
            VerbosityLevel::Medium => true,
            _ => false,
        }
    }

    /// Whether a message of low priority is emitted.
    pub fn low(&self) -> (r: bool)
        ensures
            r == (!self.config_spec().verbosity.enabled && self.config_spec().verbosity.level
                != VerbosityLevel::Off),
    {
        if self.config.verbosity.enabled {
            return false;
        }
        match self.config.verbosity.level {
            VerbosityLevel::High => true,
            VerbosityLevel::Medium => true,
            VerbosityLevel::Low => true,
            VerbosityLevel::Off => false,
        }
    }
}

} // verus!
