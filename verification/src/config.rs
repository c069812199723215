//! The switch that gates the legacy line-oriented diagnostic output.

use vstd::prelude::*;

verus! {

/// Recorder configuration. The legacy diagnostic output is off unless it has
/// been switched on explicitly.
pub struct RecorderConfig {
    pub legacy_log: bool,
}

impl RecorderConfig {
    /// A fresh configuration: legacy diagnostics are off.
    pub fn new() -> (cfg: RecorderConfig)
        ensures
            !cfg.legacy_log,
    {
        RecorderConfig { legacy_log: false }
    }
}

/// Switches the legacy diagnostic output on.
pub fn enable_deepmind(cfg: &mut RecorderConfig)
    ensures
        final(cfg).legacy_log,
{
    cfg.legacy_log = true;
}

/// Switches the legacy diagnostic output off.
pub fn disable_deepmind(cfg: &mut RecorderConfig)
    ensures
        !final(cfg).legacy_log,
{
    cfg.legacy_log = false;
}

/// Whether the legacy diagnostic output is on.
pub fn deepmind_enabled(cfg: &RecorderConfig) -> (on: bool)
    ensures
        on == cfg.legacy_log,
{
    cfg.legacy_log
}

} // verus!
