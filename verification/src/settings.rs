//! Runtime settings threaded explicitly through call sites: one value is
//! built at startup and read thereafter.

use vstd::prelude::*;

verus! {

/// Process-level settings.
#[derive(Debug, Clone, Copy, PartialEq, Eq, Structural)]
pub struct Settings {
    /// Whether debug logging is wanted.
    pub debug: bool,
}

impl Default for Settings {
    fn default() -> (r: Self)
        ensures
            r.debug == false,
    {
        Settings { debug: false }
    }
}

/// Set the debug flag, once at startup.
pub fn set_debug_mode(settings: &mut Settings, enabled: bool)
    ensures
        final(settings).debug == enabled,
{
    settings.debug = enabled;
}

/// Whether debug logging is wanted.
pub fn is_debug_mode(settings: &Settings) -> (r: bool)
    ensures
        r == settings.debug,
{
    settings.debug
}

} // verus!
