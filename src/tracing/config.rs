//! The errors of initializing `tracing` from a configuration file.

use vstd::prelude::*;

use crate::config::FindError;

verus! {

/// The error type of `tracing_config`, carried through by [`InitError::TracingConfig`].
#[verifier::external_type_specification]
#[verifier::external_body]
pub struct ExTracingConfigError(tracing_config::TracingConfigError);

/// Error type for initializing `tracing`.
#[derive(Debug)]
pub enum InitError {
    /// The configuration file could not be found.
    Find(FindError),
    /// An I/O error.
    Io(std::io::Error),
    /// `tracing` could not be configured.
    TracingConfig(tracing_config::TracingConfigError),
}

impl InitError {
    /// Returns `true` if the error should be printed: every error but a configuration file that was not
    /// found.
    pub fn should_print(&self) -> (r: bool)
        ensures
            r == !(self matches InitError::Find(FindError::FileNotFound)),
    {
        match self {
            InitError::Find(err) => err.should_print(),
            _ => true,
        }
    }
}

} // verus!
