//! The counter store: the discipline by which the counts cross a power loss.
//! The stored record is added to the live counts once, at boot, and only then
//! may the live counts be written back.

use crate::pulse::{merged, CounterBank, CounterValues};
use vstd::prelude::*;

verus! {

/// The rule of `restore` on plain values: whether the store counts as
/// restored afterwards, and the live counts.
pub open spec fn restore_step(restored: bool, live: Seq<u64>, record: Seq<u64>) -> (
    bool,
    Seq<u64>,
) {
    if restored {
        (true, live)
    } else {
        (true, merged(live, record))
    }
}

/// Keeps the two storage operations in order. A store starts out
/// unrestored; `restore` merges the stored record and is not repeated, and
/// `persist` hands out nothing to write before that.
pub struct CounterStore {
    restored: bool,
}

impl CounterStore {
    /// Whether the stored record has been merged into the live counts.
    pub closed spec fn restored(self) -> bool {
        self.restored
    }

    /// The store at boot, before the stored record was read.
    pub fn new() -> (store: CounterStore)
        ensures
            !store.restored(),
    {
        CounterStore { restored: false }
    }

    /// Whether the stored record has been merged.
    pub fn is_restored(&self) -> (restored: bool)
        ensures
            restored == self.restored(),
    {
        self.restored
    }

    /// Merges the record read at boot into the live counts, unless that has
    /// been done before: a second record would be counted twice. Returns
    /// whether the record was merged.
    pub fn restore(&mut self, bank: &mut CounterBank, record: &CounterValues) -> (done: bool)
        ensures
            done == !old(self).restored(),
            (final(self).restored(), final(bank).counts()) == restore_step(
                old(self).restored(),
                old(bank).counts(),
                record@,
            ),
            final(bank).in_pulse() == old(bank).in_pulse(),
    {
        if self.restored {
            false
        } else {
            bank.merge(record);
            self.restored = true;
            true
        }
    }

    /// The record to write at the end of a cycle: the live counts as they
    /// stand. Before the stored record was merged there is nothing to write,
    /// for a record written then would wipe out the counts stored.
    pub fn persist(&self, bank: &CounterBank) -> (record: Option<CounterValues>)
        ensures
            record is Some <==> self.restored(),
            record matches Some(values) ==> values@ == bank.counts(),
    {
        if self.restored {
            Some(bank.snapshot())
        } else {
            None
        }
    }
}

/// Restoring twice is restoring once: whatever a second record holds, the
/// counts stay those after the first.
pub proof fn lemma_restore_happens_once(live: Seq<u64>, first: Seq<u64>, second: Seq<u64>)
    ensures
        ({
            let (after_first, counts_first) = restore_step(false, live, first);
            let (after_second, counts_second) = restore_step(after_first, counts_first, second);
            &&& after_first
            &&& after_second
            &&& counts_first == merged(live, first)
            &&& counts_second == counts_first
        }),
{
}

} // verus!
