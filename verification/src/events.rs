//! The TUI's event source settings. Polling the terminal is the caller's part.

use vstd::prelude::*;

verus! {

/// Keyboard input and a tick timer: when no key arrives within the tick
/// rate, a tick event is produced.
pub struct EventHandler {
    tick_rate_ms: u64,
}

impl EventHandler {
    pub fn new(tick_rate_ms: u64) -> (r: EventHandler)
        ensures
            r.spec_tick_rate_ms() == tick_rate_ms,
    {
        EventHandler { tick_rate_ms }
    }

    pub closed spec fn spec_tick_rate_ms(&self) -> u64 {
        self.tick_rate_ms
    }

    /// How long to wait for input before producing a tick, in milliseconds.
    pub fn tick_rate_ms(&self) -> (r: u64)
        ensures
            r == self.spec_tick_rate_ms(),
    {
        self.tick_rate_ms
    }
}

} // verus!
