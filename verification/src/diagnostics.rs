//! Settings of the client's diagnostics.
use vstd::prelude::*;

verus! {

/// Settings of the diagnostics; none so far.
#[derive(Debug, Clone, Copy, PartialEq, Eq, Structural)]
pub struct DiagnosticsConfig {}

/// The diagnostics of the client, with their settings.
#[derive(Debug)]
pub struct DiagnosticsPlugin(pub DiagnosticsConfig);

impl DiagnosticsPlugin {
    /// Diagnostics with the given settings.
    pub fn new(config: DiagnosticsConfig) -> (r: Self)
        ensures
            r.0 == config,
    {
        Self(config)
    }
}

} // verus!
