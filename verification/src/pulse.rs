//! The pulse counter bank: one debounced edge counter per S0 channel, and the
//! record in which the counts outlive a power loss.

use vstd::prelude::*;

verus! {

/// Number of S0 pulse channels.
pub const S0_CHANNEL_COUNT: usize = 6;

/// Time for which a channel is left alone after power-up before its edges
/// are counted, in milliseconds.
pub const SETTLE_MILLIS: u64 = 10;

/// Energy quantum of each channel: pulses per kilowatt-hour.
pub const S0_IMP_PER_KWH: [u32; 6] = [800, 800, 800, 800, 800, 800];

/// A count advanced by `by`; counters wrap around at 2^64.
pub open spec fn advanced(count: u64, by: nat) -> u64 {
    ((count + by) % 0x1_0000_0000_0000_0000) as u64
}

/// One channel's rule: an observation of a high level counts once, when the
/// channel was not already inside a pulse. The level observed is remembered.
pub open spec fn channel_step(count: u64, in_pulse: bool, high: bool) -> (u64, bool) {
    (
        if high && !in_pulse {
            advanced(count, 1)
        } else {
            count
        },
        high,
    )
}

/// A channel's count and phase after a sequence of level observations.
pub open spec fn channel_after(count: u64, in_pulse: bool, levels: Seq<bool>) -> (u64, bool)
    decreases levels.len(),
{
    if levels.len() == 0 {
        (count, in_pulse)
    } else {
        let (earlier_count, earlier_phase) = channel_after(count, in_pulse, levels.drop_last());
        channel_step(earlier_count, earlier_phase, levels.last())
    }
}

/// The level in force just before observation `i`.
pub open spec fn level_before(initial: bool, levels: Seq<bool>, i: int) -> bool {
    if i <= 0 {
        initial
    } else {
        levels[i - 1]
    }
}

/// Number of pulses that begin within `levels`: observations of a high level
/// that follow a low one.
pub open spec fn pulses_begun(initial: bool, levels: Seq<bool>) -> nat
    decreases levels.len(),
{
    if levels.len() == 0 {
        0
    } else {
        let i = levels.len() - 1;
        pulses_begun(initial, levels.drop_last()) + if levels[i] && !level_before(
            initial,
            levels,
            i,
        ) {
            1nat
        } else {
            0nat
        }
    }
}

/// Number of pulses that end within `levels`: observations of a low level
/// that follow a high one.
pub open spec fn pulses_completed(initial: bool, levels: Seq<bool>) -> nat
    decreases levels.len(),
{
    if levels.len() == 0 {
        0
    } else {
        let i = levels.len() - 1;
        pulses_completed(initial, levels.drop_last()) + if !levels[i] && level_before(
            initial,
            levels,
            i,
        ) {
            1nat
        } else {
            0nat
        }
    }
}

/// Advancing twice is advancing by the sum.
pub proof fn lemma_advanced_twice(count: u64, a: nat, b: nat)
    ensures
        advanced(advanced(count, a), b) == advanced(count, a + b),
{
    let m = 0x1_0000_0000_0000_0000int;
    let x = count + a;
    assert((x % m + b) % m == (x + b) % m) by {
        vstd::arithmetic::div_mod::lemma_add_mod_noop(x, b as int, m);
        vstd::arithmetic::div_mod::lemma_add_mod_noop(x % m, b as int, m);
        vstd::arithmetic::div_mod::lemma_mod_twice(x, m);
    }
}

/// Debounce: whatever the levels observed on a channel, its counter advances
/// by the number of pulses that began, one per low-to-high transition.
/// Repeated sightings of a high level during a pulse add nothing.
pub proof fn lemma_debounce(count: u64, in_pulse: bool, levels: Seq<bool>)
    ensures
        channel_after(count, in_pulse, levels).0 == advanced(
            count,
            pulses_begun(in_pulse, levels),
        ),
        channel_after(count, in_pulse, levels).1 == level_before(
            in_pulse,
            levels,
            levels.len() as int,
        ),
    decreases levels.len(),
{
    if levels.len() > 0 {
        let earlier = levels.drop_last();
        lemma_debounce(count, in_pulse, earlier);
        let begun = pulses_begun(in_pulse, earlier);
        assert(level_before(in_pulse, earlier, earlier.len() as int) == level_before(
            in_pulse,
            levels,
            levels.len() - 1,
        ));
        lemma_advanced_twice(count, begun, 1);
    }
}

/// Pulses begun and pulses completed differ only by the pulses under way at
/// the two ends: from an idle channel, every pulse counted has also ended,
/// but for one that is still high at the end.
pub proof fn lemma_begun_and_completed(initial: bool, levels: Seq<bool>)
    ensures
        pulses_begun(initial, levels) + (if initial { 1nat } else { 0nat }) == pulses_completed(
            initial,
            levels,
        ) + (if level_before(initial, levels, levels.len() as int) { 1nat } else { 0nat }),
    decreases levels.len(),
{
    if levels.len() > 0 {
        let earlier = levels.drop_last();
        lemma_begun_and_completed(initial, earlier);
        assert(level_before(initial, earlier, earlier.len() as int) == level_before(
            initial,
            levels,
            levels.len() - 1,
        ));
    }
}

/// The persistent record: one count per channel. It is written whole and
/// read whole; a record that was never written reads as all zeros.
#[derive(Clone, Copy, Debug, PartialEq, Eq)]
pub struct CounterValues {
    counts: [u64; 6],
}

impl View for CounterValues {
    type V = Seq<u64>;

    closed spec fn view(&self) -> Seq<u64> {
        self.counts@
    }
}

impl CounterValues {
    /// A record holding `counts`.
    pub fn new(counts: [u64; 6]) -> (record: CounterValues)
        ensures
            record@ == counts@,
    {
        CounterValues { counts }
    }

    /// The counts held, by channel.
    pub fn counts(&self) -> (counts: [u64; 6])
        ensures
            counts@ == self@,
    {
        self.counts
    }
}

impl Default for CounterValues {
    /// The record of a cold start.
    fn default() -> (record: CounterValues)
        ensures
            record@ == Seq::new(S0_CHANNEL_COUNT as nat, |i: int| 0u64),
    {
        let record = CounterValues { counts: [0u64; 6] };
        record
    }
}

/// The live counts after a stored record was added to them, channel by
/// channel.
pub open spec fn merged(live: Seq<u64>, stored: Seq<u64>) -> Seq<u64> {
    Seq::new(live.len(), |i: int| advanced(live[i], stored[i] as nat))
}

/// The counter bank: per channel a count and the phase of the debounce,
/// which waits for a rising edge, counts it, and waits for the falling edge
/// before it counts again.
pub struct CounterBank {
    counts: [u64; 6],
    in_pulse: [bool; 6],
}

impl CounterBank {
    /// The counts, by channel.
    pub closed spec fn counts(self) -> Seq<u64> {
        self.counts@
    }

    /// Per channel, whether the last level observed was high.
    pub closed spec fn in_pulse(self) -> Seq<bool> {
        self.in_pulse@
    }

    /// A bank at power-up: all counts zero, every channel waiting for a
    /// rising edge.
    pub fn new() -> (bank: CounterBank)
        ensures
            bank.counts() == Seq::new(S0_CHANNEL_COUNT as nat, |i: int| 0u64),
            bank.in_pulse() == Seq::new(S0_CHANNEL_COUNT as nat, |i: int| false),
    {
        let bank = CounterBank { counts: [0u64; 6], in_pulse: [false; 6] };
        bank
    }

    /// The bank always has one count and one phase per channel.
    pub proof fn lemma_shape(self)
        ensures
            self.counts().len() == S0_CHANNEL_COUNT,
            self.in_pulse().len() == S0_CHANNEL_COUNT,
    {
    }

    /// Whether `channel` waits for a rising edge (`true`) or for the falling
    /// edge of the pulse it has counted (`false`).
    pub fn awaits_high(&self, channel: usize) -> (waiting: bool)
        requires
            channel < S0_CHANNEL_COUNT,
        ensures
            waiting == !self.in_pulse()[channel as int],
    {
        !self.in_pulse[channel]
    }

    /// Takes in the level seen on `channel`. Returns whether the observation
    /// was counted as a pulse.
    pub fn observe(&mut self, channel: usize, high: bool) -> (counted: bool)
        requires
            channel < S0_CHANNEL_COUNT,
        ensures
            counted == (high && !old(self).in_pulse()[channel as int]),
            final(self).counts() == old(self).counts().update(
                channel as int,
                channel_step(
                    old(self).counts()[channel as int],
                    old(self).in_pulse()[channel as int],
                    high,
                ).0,
            ),
            final(self).in_pulse() == old(self).in_pulse().update(channel as int, high),
    {
        let counted: bool = high && !self.in_pulse[channel];
        if counted {
            let count: u64 = self.counts[channel];
            self.counts[channel] = count.wrapping_add(1);
        }
        self.in_pulse[channel] = high;
        assert(self.counts() =~= old(self).counts().update(
            channel as int,
            channel_step(
                old(self).counts()[channel as int],
                old(self).in_pulse()[channel as int],
                high,
            ).0,
        ));
        counted
    }

    /// The count of one channel.
    pub fn load(&self, channel: usize) -> (count: u64)
        requires
            channel < S0_CHANNEL_COUNT,
        ensures
            count == self.counts()[channel as int],
    {
        self.counts[channel]
    }

    /// Overwrites the count of one channel.
    pub fn store(&mut self, channel: usize, value: u64)
        requires
            channel < S0_CHANNEL_COUNT,
        ensures
            final(self).counts() == old(self).counts().update(channel as int, value),
            final(self).in_pulse() == old(self).in_pulse(),
    {
        self.counts[channel] = value;
    }

    /// Adds a stored record to the live counts. Pulses counted before the
    /// record was read are kept: the record is added, it does not replace.
    pub fn merge(&mut self, stored: &CounterValues)
        ensures
            final(self).counts() == merged(old(self).counts(), stored@),
            final(self).in_pulse() == old(self).in_pulse(),
    {
        let mut i: usize = 0;
        while i < S0_CHANNEL_COUNT
            invariant
                i <= S0_CHANNEL_COUNT,
                self.in_pulse() == old(self).in_pulse(),
                forall|k: int|
                    0 <= k < i ==> self.counts()[k] == advanced(
                        old(self).counts()[k],
                        stored@[k] as nat,
                    ),
                forall|k: int| i <= k < S0_CHANNEL_COUNT ==> self.counts()[k] == old(self).counts()[k],
            decreases S0_CHANNEL_COUNT - i,
        {
            let ghost before = self.counts();
            let count: u64 = self.counts[i];
            let sum: u64 = count.wrapping_add(stored.counts[i]);
            self.counts[i] = sum;
            assert(self.counts() == before.update(i as int, sum));
            i += 1;
        }
    }

    /// The record to persist: the live counts as they stand.
    pub fn snapshot(&self) -> (record: CounterValues)
        ensures
            record@ == self.counts(),
    {
        CounterValues { counts: self.counts }
    }
}

/// A record merged into a bank that has not counted yet comes back exactly.
pub proof fn lemma_reload_into_fresh_bank(stored: Seq<u64>)
    ensures
        merged(Seq::new(stored.len(), |i: int| 0u64), stored) == stored,
{
}

/// A record merged into a bank whose channels have counted `since[i]` pulses
/// from zero yields, per channel, the stored count advanced by `since[i]`.
pub proof fn lemma_reload_into_running_bank(stored: Seq<u64>, since: Seq<nat>)
    requires
        since.len() == stored.len(),
    ensures
        merged(Seq::new(stored.len(), |i: int| advanced(0, since[i])), stored) == Seq::new(
            stored.len(),
            |i: int| advanced(stored[i], since[i]),
        ),
{
    let live = Seq::new(stored.len(), |i: int| advanced(0, since[i]));
    assert forall|i: int| 0 <= i < stored.len() implies merged(live, stored)[i] == advanced(
        stored[i],
        since[i],
    ) by {
        lemma_advanced_twice(0, since[i], stored[i] as nat);
        lemma_advanced_twice(0, stored[i] as nat, since[i]);
    }
}

} // verus!
