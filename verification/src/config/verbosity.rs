//! Descriptors of the verbosity configurations for logging messages.

use vstd::prelude::*;

verus! {

/// Level of verbosity when logging messages.
#[derive(Debug, Clone, Copy, PartialEq, Eq)]
pub enum VerbosityLevel {
    /// No messages logged.
    Off,
    /// All messages are logged.
    Low,
    /// Only low priority messages are *not* logged.
    Medium,
    /// Only high priority messages are logged.
    High,
}

impl VerbosityLevel {
    /// The level assumed when none is configured.
    pub open spec fn default_spec() -> VerbosityLevel {
        VerbosityLevel::Off
    }
}

impl Default for VerbosityLevel {
    fn default() -> (r: Self)
        ensures
            r == VerbosityLevel::default_spec(),
    {
        VerbosityLevel::Off
    }
}

/// Descriptor of the verbosity configurations for logging messages.
#[derive(Debug, Clone, Copy, PartialEq, Eq)]
pub struct Verbosity {
    /// Whether logging is enabled.
    pub enabled: bool,
    /// The level of verbosity to use when logging messages.
    pub level: VerbosityLevel,
}

impl Verbosity {
    /// The verbosity assumed when none is configured.
    pub open spec fn default_spec() -> Verbosity {
        Verbosity { enabled: false, level: VerbosityLevel::default_spec() }
    }
}

impl Default for Verbosity {
    fn default() -> (r: Self)
        ensures
            r == Verbosity::default_spec(),
    {
        Verbosity { enabled: false, level: VerbosityLevel::default() }
    }
}

} // verus!
