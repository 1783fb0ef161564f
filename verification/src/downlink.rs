//! Downlink commands. A downlink addresses one pulse channel through its
//! port number and carries the count to set that channel to.

use crate::pulse::{CounterBank, S0_CHANNEL_COUNT};
use vstd::prelude::*;

verus! {

/// Length of a downlink payload: one 64-bit count.
pub const DOWNLINK_PAYLOAD_LENGTH: usize = 8;

/// What became of a downlink.
#[derive(Clone, Copy, Debug, PartialEq, Eq, Structural)]
pub enum DownlinkOutcome {
    /// The count of `channel` was overwritten with `value`.
    Applied { channel: usize, value: u64 },
    /// The port addresses no channel; nothing was changed.
    InvalidPort,
    /// The payload is not eight bytes long; nothing was changed.
    InvalidLength,
}

/// The channel a port addresses: ports count from one, channels from zero.
pub open spec fn channel_of_port(fport: u8) -> Option<usize> {
    if 1 <= fport <= S0_CHANNEL_COUNT {
        Some((fport - 1) as usize)
    } else {
        None
    }
}

/// The number that eight bytes denote, least significant byte first.
pub open spec fn le_u64(bytes: Seq<u8>) -> u64 {
    (bytes[0] + bytes[1] * 0x100 + bytes[2] * 0x1_0000 + bytes[3] * 0x100_0000 + bytes[4]
        * 0x1_0000_0000 + bytes[5] * 0x100_0000_0000 + bytes[6] * 0x1_0000_0000_0000 + bytes[7]
        * 0x100_0000_0000_0000) as u64
}

/// What a downlink on `fport` with `payload` leads to. The port is judged
/// first, then the length.
pub open spec fn downlink_outcome(fport: u8, payload: Seq<u8>) -> DownlinkOutcome {
    match channel_of_port(fport) {
        None => DownlinkOutcome::InvalidPort,
        Some(channel) => if payload.len() != DOWNLINK_PAYLOAD_LENGTH {
            DownlinkOutcome::InvalidLength
        } else {
            DownlinkOutcome::Applied { channel, value: le_u64(payload) }
        },
    }
}

/// The counts after a downlink with the given outcome.
pub open spec fn counts_after(counts: Seq<u64>, outcome: DownlinkOutcome) -> Seq<u64> {
    match outcome {
        DownlinkOutcome::Applied { channel, value } => counts.update(channel as int, value),
        _ => counts,
    }
}

/// Reads eight bytes as a little-endian count.
pub fn read_le_u64(bytes: &[u8]) -> (value: u64)
    requires
        bytes.len() == DOWNLINK_PAYLOAD_LENGTH,
    ensures
        value == le_u64(bytes@),
{
    let low: u64 = bytes[0] as u64 + bytes[1] as u64 * 0x100 + bytes[2] as u64 * 0x1_0000
        + bytes[3] as u64 * 0x100_0000;
    let high: u64 = bytes[4] as u64 + bytes[5] as u64 * 0x100 + bytes[6] as u64 * 0x1_0000
        + bytes[7] as u64 * 0x100_0000;
    low + high * 0x1_0000_0000
}

/// Applies a downlink to the bank. A valid downlink overwrites the count of
/// the channel it addresses, and of no other; an invalid one changes nothing.
pub fn apply_downlink(bank: &mut CounterBank, fport: u8, payload: &[u8]) -> (outcome:
    DownlinkOutcome)
    ensures
        outcome == downlink_outcome(fport, payload@),
        final(bank).counts() == counts_after(old(bank).counts(), outcome),
        final(bank).in_pulse() == old(bank).in_pulse(),
{
    if fport < 1 || fport as usize > S0_CHANNEL_COUNT {
        return DownlinkOutcome::InvalidPort;
    }
    let channel: usize = (fport - 1) as usize;
    if payload.len() != DOWNLINK_PAYLOAD_LENGTH {
        return DownlinkOutcome::InvalidLength;
    }
    let value: u64 = read_le_u64(payload);
    bank.store(channel, value);
    DownlinkOutcome::Applied { channel, value }
}

} // verus!
