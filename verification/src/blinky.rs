//! The status indicator: a light that toggles at a period which the rest of
//! the node may change at any time.

use vstd::prelude::*;

verus! {

/// Toggle period with which the indicator starts, in milliseconds.
pub const INITIAL_PERIOD_MS: u64 = 100;

/// State of the indicator: the level to drive next, and the current period.
#[derive(Clone, Copy, Debug, PartialEq, Eq, Structural)]
pub struct Blinker {
    /// The level that the next toggle drives.
    pub lit: bool,
    /// Time between two toggles, in milliseconds.
    pub period_ms: u64,
}

impl Blinker {
    /// An indicator that starts dark and toggles every `period_ms`.
    pub fn new(period_ms: u64) -> (blinker: Blinker)
        ensures
            blinker == (Blinker { lit: false, period_ms }),
    {
        Blinker { lit: false, period_ms }
    }

    /// Returns the level to drive now; the next toggle drives the opposite.
    pub fn toggle(&mut self) -> (level: bool)
        ensures
            level == old(self).lit,
            final(self).lit == !old(self).lit,
            final(self).period_ms == old(self).period_ms,
    {
        let level: bool = self.lit;
        self.lit = !level;
        level
    }

    /// Ends the wait after a toggle. `signalled` is the period that arrived
    /// during the wait, if one did; of several, the caller passes the latest.
    /// Without one the period stays as it is.
    pub fn wake(&mut self, signalled: Option<u64>)
        ensures
            final(self).lit == old(self).lit,
            final(self).period_ms == match signalled {
                Some(period) => period,
                None => old(self).period_ms,
            },
    {
        if let Some(period) = signalled {
            self.period_ms = period;
        }
    }
}

} // verus!
