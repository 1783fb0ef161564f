//! The uplink cycle: what is sensed, how the answer to a transmission is
//! acted on, and how long the node sleeps before the next cycle.

use crate::iec62056::{EnergyValue, MeterData};
use crate::pulse::{CounterBank, CounterValues};
use crate::temperature::{ascending, celsius_tenths, middle_index, temperature, SAMPLE_COUNT};
use vstd::prelude::*;

verus! {

/// How long the meter may take to answer, in seconds.
pub const METER_TIMEOUT_SECONDS: u64 = 10;

/// Base interval between two transmissions, in microseconds.
pub const TRANSMIT_INTERVAL_MICROS: u64 = 30_000_000;

/// Upper bound of the random addition to the interval, in microseconds.
pub const SLEEP_VARIATION_MICROS: u64 = 1_000_000;

/// Port on which frames are sent.
pub const UPLINK_PORT: u8 = 1;

/// Frames are sent as confirmed uplinks.
pub const UPLINK_CONFIRMED: bool = true;

/// The phases of a cycle, in order.
#[derive(Clone, Copy, Debug, PartialEq, Eq, Structural)]
pub enum CyclePhase {
    /// Collect the meter reading, the pulse counts and the temperature.
    Sense,
    /// Encode the frame.
    Encode,
    /// Hand the frame to the radio.
    Send,
    /// Act on the radio's answer.
    React,
    /// Write the counts to the persistent record.
    Persist,
    /// Wait for the next cycle.
    Sleep,
}

/// The phase that follows `phase`; after `Sleep` the cycle starts over.
pub open spec fn next_phase(phase: CyclePhase) -> CyclePhase {
    match phase {
        CyclePhase::Sense => CyclePhase::Encode,
        CyclePhase::Encode => CyclePhase::Send,
        CyclePhase::Send => CyclePhase::React,
        CyclePhase::React => CyclePhase::Persist,
        CyclePhase::Persist => CyclePhase::Sleep,
        CyclePhase::Sleep => CyclePhase::Sense,
    }
}

/// Toggle period of the status indicator during `phase`, in milliseconds:
/// slow while asleep, faster while measuring, fastest while transmitting.
pub open spec fn indicator_period(phase: CyclePhase) -> u64 {
    match phase {
        CyclePhase::Sense => 500,
        CyclePhase::Sleep => 2000,
        _ => 50,
    }
}

impl CyclePhase {
    /// The phase in which the node starts.
    pub fn first() -> (phase: CyclePhase)
        ensures
            phase == CyclePhase::Sense,
    {
        CyclePhase::Sense
    }

    /// The phase that follows this one.
    pub fn next(self) -> (phase: CyclePhase)
        ensures
            phase == next_phase(self),
    {
        match self {
            CyclePhase::Sense => CyclePhase::Encode,
            CyclePhase::Encode => CyclePhase::Send,
            CyclePhase::Send => CyclePhase::React,
            CyclePhase::React => CyclePhase::Persist,
            CyclePhase::Persist => CyclePhase::Sleep,
            CyclePhase::Sleep => CyclePhase::Sense,
        }
    }

    /// The toggle period to signal to the status indicator on entering this
    /// phase, in milliseconds.
    pub fn blink_period_ms(self) -> (period: u64)
        ensures
            period == indicator_period(self),
    {
        match self {
            CyclePhase::Sense => 500,
            CyclePhase::Sleep => 2000,
            _ => 50,
        }
    }
}

/// Six steps lead round the cycle and back to where it began.
pub proof fn lemma_cycle_closes(phase: CyclePhase)
    ensures
        next_phase(next_phase(next_phase(next_phase(next_phase(next_phase(phase)))))) == phase,
{
}

/// What one cycle senses, before any of it is turned into a frame.
#[derive(Clone, Copy, Debug, PartialEq, Eq)]
pub struct Readings {
    /// Energy drawn on the main meter; `None` when the meter gave no answer
    /// in time.
    pub main_meter: Option<EnergyValue>,
    /// The pulse counts, by channel.
    pub counts: [u64; 6],
    /// Temperature in tenths of a degree Celsius.
    pub temperature_tenths: i16,
}

/// Brings the three sources together: the meter's answer if there was one,
/// the counts as they stand, and the temperature out of the raw samples.
pub fn sense(meter: Option<MeterData>, bank: &CounterBank, samples: &mut [u16; 10]) -> (readings:
    Readings)
    ensures
        readings.main_meter == match meter {
            Some(data) => Some(data.total_in),
            None => None,
        },
        readings.counts@ == bank.counts(),
        readings.temperature_tenths == celsius_tenths(
            final(samples)@[middle_index(SAMPLE_COUNT as nat)],
        ),
        ascending(final(samples)@),
        final(samples)@.to_multiset() == old(samples)@.to_multiset(),
{
    let main_meter: Option<EnergyValue> = match meter {
        Some(data) => Some(data.total_in),
        None => None,
    };
    let record: CounterValues = bank.snapshot();
    let temperature_tenths: i16 = temperature(samples);
    Readings { main_meter, counts: record.counts(), temperature_tenths }
}

/// How a transmission ended.
#[derive(Clone, Copy, Debug, PartialEq, Eq, Structural)]
pub enum SendOutcome {
    /// Acknowledged, and a downlink arrived with the acknowledgement.
    DownlinkReceived,
    /// Acknowledged, nothing else received.
    RxComplete,
    /// Not acknowledged.
    NoAck,
    /// The session with the network has expired.
    SessionExpired,
    /// The radio reported an error.
    Failed,
}

/// What the node does about the outcome of a transmission.
#[derive(Clone, Copy, Debug, PartialEq, Eq, Structural)]
pub enum Reaction {
    /// Fetch the downlink and apply it.
    TakeDownlink,
    /// Nothing to do; go on to persist the counts.
    Continue,
    /// Join the network again before the next cycle.
    Rejoin,
}

/// The reaction that an outcome calls for. A frame that was not acknowledged
/// or not sent at all is lost; the counts stay as they are.
pub open spec fn reaction_to(outcome: SendOutcome) -> Reaction {
    match outcome {
        SendOutcome::DownlinkReceived => Reaction::TakeDownlink,
        SendOutcome::SessionExpired => Reaction::Rejoin,
        _ => Reaction::Continue,
    }
}

/// Decides what to do about the outcome of a transmission.
pub fn react(outcome: SendOutcome) -> (reaction: Reaction)
    ensures
        reaction == reaction_to(outcome),
{
    match outcome {
        SendOutcome::DownlinkReceived => Reaction::TakeDownlink,
        SendOutcome::SessionExpired => Reaction::Rejoin,
        _ => Reaction::Continue,
    }
}

/// The random addition to the sleep that `random` selects: `random` scaled
/// from the 32-bit range down to `[0, SLEEP_VARIATION_MICROS)`.
pub open spec fn jitter_micros(random: u32) -> u64 {
    (random as int * SLEEP_VARIATION_MICROS as int / 0x1_0000_0000) as u64
}

/// How long to sleep before the next cycle, in microseconds: the base
/// interval and the jitter that `random` selects. The jitter keeps nodes
/// from transmitting in step.
pub fn sleep_micros(random: u32) -> (micros: u64)
    ensures
        micros == TRANSMIT_INTERVAL_MICROS + jitter_micros(random),
        TRANSMIT_INTERVAL_MICROS <= micros < TRANSMIT_INTERVAL_MICROS + SLEEP_VARIATION_MICROS,
{
    let jitter: u64 = (random as u64 * SLEEP_VARIATION_MICROS) / 0x1_0000_0000;
    TRANSMIT_INTERVAL_MICROS + jitter
}

/// The jitter spreads over the whole range: every number of microseconds
/// below the variation is selected by some random value, and a larger random
/// value never selects a smaller jitter.
pub proof fn lemma_jitter_covers_range(micros: u64, low: u32, high: u32)
    requires
        micros < SLEEP_VARIATION_MICROS,
        low <= high,
    ensures
        exists|random: u32| jitter_micros(random) == micros,
        jitter_micros(low) <= jitter_micros(high) < SLEEP_VARIATION_MICROS,
{
    let witness = (micros * 0x1_0000_0000 + 999_999) / 1_000_000;
    assert(jitter_micros(witness as u32) == micros);
}

} // verus!
