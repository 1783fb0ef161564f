//! Reader for the line-oriented telegram of a serial energy meter.
//!
//! The meter answers a start sequence with a series of sentences, one per
//! line. Each sentence opens with an object identifier and carries a value in
//! parentheses. This module frames the byte stream into sentences, classifies
//! them and extracts the meter identifier and the cumulative energy registers.

use crate::text::{
    decimal_value, find_byte, find_in, lemma_decimal_concat, lemma_find_byte, parse_bounded,
    parse_decimal, pow10,
};
use vstd::prelude::*;
use vstd::string::StringSliceAdditionalSpecFns;

verus! {

/// Capacity of the sentence buffer in bytes.
pub const METER_SENTENCE_LENGTH: usize = 64;

/// Speed of the meter's serial link in baud. The link carries 7 data bits,
/// even parity and one stop bit.
pub const BAUD_RATE: u32 = 300;

/// `(`, which opens the value of a sentence.
pub const LEFT_PAREN: u8 = 0x28;

/// `)`, which closes the value of a sentence.
pub const RIGHT_PAREN: u8 = 0x29;

/// `*`, which separates a reading from its unit.
pub const ASTERISK: u8 = 0x2A;

/// `.`, the decimal point.
pub const FULL_STOP: u8 = 0x2E;

/// The line feed that ends a sentence.
pub const LINE_FEED: u8 = 0x0A;

/// A cumulative energy register as the meter prints it: `whole`, a decimal
/// point, and `fraction` written with `fraction_digits` digits. No rounding
/// has happened yet; the reading stands for `whole + fraction / 10^fraction_digits`.
#[derive(Clone, Copy, Debug, PartialEq, Eq, Structural)]
pub struct EnergyValue {
    pub whole: u32,
    pub fraction: u32,
    pub fraction_digits: usize,
}

impl EnergyValue {
    /// The reading before anything was received: zero.
    pub fn zero() -> (value: EnergyValue)
        ensures
            value == (EnergyValue { whole: 0, fraction: 0, fraction_digits: 0 }),
    {
        EnergyValue { whole: 0, fraction: 0, fraction_digits: 0 }
    }

    /// The reading in units of `10^-fraction_digits` kWh.
    pub open spec fn scaled(self) -> nat {
        self.whole as nat * pow10(self.fraction_digits as nat) + self.fraction as nat
    }
}

/// What one telegram told about the meter.
#[derive(Clone, Copy, Debug, PartialEq, Eq, Structural)]
pub struct MeterData {
    pub meter_id: u64,
    pub total_in: EnergyValue,
    pub total_out: EnergyValue,
}

impl MeterData {
    /// The result before any sentence was read: every field zero.
    pub open spec fn empty() -> MeterData {
        MeterData {
            meter_id: 0,
            total_in: EnergyValue { whole: 0, fraction: 0, fraction_digits: 0 },
            total_out: EnergyValue { whole: 0, fraction: 0, fraction_digits: 0 },
        }
    }
}

impl Default for MeterData {
    fn default() -> (data: MeterData)
        ensures
            data == MeterData::empty(),
    {
        MeterData { meter_id: 0, total_in: EnergyValue::zero(), total_out: EnergyValue::zero() }
    }
}

/// The value field of a sentence: what stands between the first `(` and the
/// first `closing` after it.
pub open spec fn value_field(sentence: Seq<u8>, closing: u8) -> Option<Seq<u8>> {
    match find_byte(sentence, LEFT_PAREN) {
        None => None,
        Some(open) => match find_byte(sentence.skip(open), closing) {
            None => None,
            Some(close) => Some(sentence.subrange(open + 1, open + close)),
        },
    }
}

/// The meter identifier that a sentence carries: the numeral between the
/// first `(` and the first `)` after it.
pub open spec fn meter_id_of(sentence: Seq<u8>) -> Option<u64> {
    match value_field(sentence, RIGHT_PAREN) {
        None => None,
        Some(field) => match parse_decimal(field, u64::MAX as nat) {
            Some(id) => Some(id as u64),
            None => None,
        },
    }
}

/// The energy reading that a sentence carries: between the first `(` and the
/// first `*` after it stand a numeral, a decimal point and a second numeral.
pub open spec fn energy_value_of(sentence: Seq<u8>) -> Option<EnergyValue> {
    match value_field(sentence, ASTERISK) {
        None => None,
        Some(field) => match find_byte(field, FULL_STOP) {
            None => None,
            Some(dot) => match (
                parse_decimal(field.take(dot), u32::MAX as nat),
                parse_decimal(field.skip(dot + 1), u32::MAX as nat),
            ) {
                (Some(whole), Some(fraction)) => Some(
                    EnergyValue {
                        whole: whole as u32,
                        fraction: fraction as u32,
                        fraction_digits: (field.len() - dot - 1) as usize,
                    },
                ),
                _ => None,
            },
        },
    }
}

/// A reading is worth what its digits denote once the decimal point is taken
/// out: `0001234.567` stands for 1234567 thousandths.
pub proof fn lemma_energy_value_scaled(sentence: Seq<u8>)
    requires
        energy_value_of(sentence) is Some,
        sentence.len() <= usize::MAX,
    ensures
        ({
            let field = value_field(sentence, ASTERISK).unwrap();
            let dot = find_byte(field, FULL_STOP).unwrap();
            energy_value_of(sentence).unwrap().scaled() == decimal_value(
                field.take(dot) + field.skip(dot + 1),
            )
        }),
{
    let field = value_field(sentence, ASTERISK).unwrap();
    let dot = find_byte(field, FULL_STOP).unwrap();
    let open = find_byte(sentence, LEFT_PAREN).unwrap();
    lemma_find_byte(sentence, LEFT_PAREN);
    lemma_find_byte(sentence.skip(open), ASTERISK);
    lemma_find_byte(field, FULL_STOP);
    lemma_decimal_concat(field.take(dot), field.skip(dot + 1));
}

/// Extracts the meter identifier from the bytes of a sentence.
pub fn meter_id_in(sentence: &[u8]) -> (id: Option<u64>)
    ensures
        id == meter_id_of(sentence@),
{
    let len: usize = sentence.len();
    assert(sentence@.subrange(0, len as int) =~= sentence@);
    let open: usize = match find_in(sentence, 0, len, LEFT_PAREN) {
        Some(i) => i,
        None => { return None; },
    };
    proof {
        lemma_find_byte(sentence@, LEFT_PAREN);
    }
    let close: usize = match find_in(sentence, open, len, RIGHT_PAREN) {
        Some(i) => i,
        None => { return None; },
    };
    proof {
        lemma_find_byte(sentence@.skip(open as int), RIGHT_PAREN);
    }
    parse_bounded(sentence, open + 1, close, u64::MAX)
}

/// Extracts the meter identifier from a sentence such as
/// `C.1(0000000074892473)`.
pub fn parse_meter_id(sentence: &str) -> (id: Option<u64>)
    ensures
        id == meter_id_of(sentence.spec_bytes()),
{
    meter_id_in(sentence.as_bytes())
}

/// Extracts the energy reading from the bytes of a sentence.
pub fn energy_value_in(sentence: &[u8]) -> (value: Option<EnergyValue>)
    ensures
        value == energy_value_of(sentence@),
{
    let len: usize = sentence.len();
    assert(sentence@.subrange(0, len as int) =~= sentence@);
    let open: usize = match find_in(sentence, 0, len, LEFT_PAREN) {
        Some(i) => i,
        None => { return None; },
    };
    proof {
        lemma_find_byte(sentence@, LEFT_PAREN);
    }
    let star: usize = match find_in(sentence, open, len, ASTERISK) {
        Some(i) => i,
        None => { return None; },
    };
    proof {
        lemma_find_byte(sentence@.skip(open as int), ASTERISK);
    }
    let ghost field = sentence@.subrange(open + 1, star as int);
    let dot: usize = match find_in(sentence, open + 1, star, FULL_STOP) {
        Some(i) => i,
        None => { return None; },
    };
    proof {
        lemma_find_byte(field, FULL_STOP);
        assert(field.take(dot - open - 1) =~= sentence@.subrange(open + 1, dot as int));
        assert(field.skip(dot - open) =~= sentence@.subrange(dot + 1, star as int));
    }
    let whole: u64 = match parse_bounded(sentence, open + 1, dot, 0xFFFF_FFFF) {
        Some(v) => v,
        None => { return None; },
    };
    let fraction: u64 = match parse_bounded(sentence, dot + 1, star, 0xFFFF_FFFF) {
        Some(v) => v,
        None => { return None; },
    };
    Some(
        EnergyValue {
            whole: whole as u32,
            fraction: fraction as u32,
            fraction_digits: star - dot - 1,
        },
    )
}

/// Extracts the energy reading from a sentence such as
/// `1.8.0(0001234.567*kWh)`.
pub fn parse_energy_value(sentence: &str) -> (value: Option<EnergyValue>)
    ensures
        value == energy_value_of(sentence.spec_bytes()),
{
    energy_value_in(sentence.as_bytes())
}

/// The sequence that asks the meter for a telegram: `/?!` and a line break.
pub fn start_sequence() -> (bytes: [u8; 5])
    ensures
        bytes@ == seq![0x2Fu8, 0x3F, 0x21, 0x0D, 0x0A],
{
    let bytes: [u8; 5] = [0x2F, 0x3F, 0x21, 0x0D, 0x0A];
    bytes
}

/// The bytes received so far, followed by zeros up to the buffer's capacity.
pub open spec fn padded(filled: Seq<u8>) -> Seq<u8> {
    Seq::new(
        METER_SENTENCE_LENGTH as nat,
        |i: int| if i < filled.len() { filled[i] } else { 0u8 },
    )
}

/// What handing one byte to the framer leads to.
#[derive(Clone, Copy, Debug, PartialEq, Eq)]
pub enum Framing {
    /// The sentence is not complete yet.
    Pending,
    /// A line feed completed the sentence: the buffer's content, zero-padded.
    Complete([u8; 64]),
    /// The buffer filled up without a line feed and was emptied.
    Discarded,
}

/// `Framing` as the contracts speak of it, with the sentence as a sequence.
pub enum Framed {
    /// The sentence is not complete yet.
    Pending,
    /// A line feed completed the sentence.
    Complete(Seq<u8>),
    /// The buffer filled up without a line feed and was emptied.
    Discarded,
}

impl View for Framing {
    type V = Framed;

    open spec fn view(&self) -> Framed {
        match *self {
            Framing::Pending => Framed::Pending,
            Framing::Complete(bytes) => Framed::Complete(bytes@),
            Framing::Discarded => Framed::Discarded,
        }
    }
}

/// The framer's rule on the bytes pending in the buffer: what is pending
/// after `byte` arrived, and what came of it. A line feed completes the
/// sentence, also in the buffer's last place; any other byte that fills the
/// buffer has it discarded.
pub open spec fn frame_byte(pending: Seq<u8>, byte: u8) -> (Seq<u8>, Framed) {
    let filled = pending.push(byte);
    if byte == LINE_FEED {
        (Seq::<u8>::empty(), Framed::Complete(padded(filled)))
    } else if filled.len() >= METER_SENTENCE_LENGTH {
        (Seq::<u8>::empty(), Framed::Discarded)
    } else {
        (filled, Framed::Pending)
    }
}

/// Collects bytes into sentences. A sentence ends at a line feed; a buffer
/// that fills up without one is thrown away and framing starts over.
pub struct SentenceBuffer {
    buffer: [u8; 64],
    position: usize,
}

impl SentenceBuffer {
    #[verifier::type_invariant]
    spec fn well_formed(self) -> bool {
        &&& self.position < METER_SENTENCE_LENGTH
        &&& forall|i: int| self.position <= i < METER_SENTENCE_LENGTH ==> self.buffer[i] == 0
    }

    /// The bytes of the sentence under construction.
    pub closed spec fn pending(self) -> Seq<u8> {
        self.buffer@.take(self.position as int)
    }

    /// An empty buffer.
    pub fn new() -> (framer: SentenceBuffer)
        ensures
            framer.pending() == Seq::<u8>::empty(),
    {
        let framer = SentenceBuffer { buffer: [0u8; 64], position: 0 };
        framer
    }

    /// Number of bytes pending; always less than the capacity.
    pub fn pending_len(&self) -> (len: usize)
        ensures
            len == self.pending().len(),
            len < METER_SENTENCE_LENGTH,
    {
        proof {
            use_type_invariant(self);
        }
        self.position
    }

    /// Takes in one received byte.
    pub fn push(&mut self, byte: u8) -> (event: Framing)
        ensures
            old(self).pending().len() < METER_SENTENCE_LENGTH,
            (final(self).pending(), event@) == frame_byte(old(self).pending(), byte),
    {
        proof {
            use_type_invariant(&*self);
        }
        let ghost before = self.pending();
        let mut buffer: [u8; 64] = self.buffer;
        let position: usize = self.position;
        buffer[position] = byte;
        let ghost filled = before.push(byte);
        if byte == LINE_FEED {
            assert(buffer@ =~= padded(filled));
            *self = SentenceBuffer { buffer: [0u8; 64], position: 0 };
            Framing::Complete(buffer)
        } else if position + 1 == METER_SENTENCE_LENGTH {
            *self = SentenceBuffer { buffer: [0u8; 64], position: 0 };
            Framing::Discarded
        } else {
            *self = SentenceBuffer { buffer, position: position + 1 };
            Framing::Pending
        }
    }
}

/// A sentence with every byte outside the 7-bit range replaced by zero.
pub open spec fn sanitized(raw: Seq<u8>) -> Seq<u8> {
    Seq::new(raw.len(), |i: int| if raw[i] >= 0x80 { 0u8 } else { raw[i] })
}

/// Zeroes every byte that has its top bit set: such a byte is line noise, not
/// text.
pub fn sanitize(sentence: &mut [u8; 64])
    ensures
        final(sentence)@ == sanitized(old(sentence)@),
{
    let ghost raw = sentence@;
    let mut i: usize = 0;
    while i < 64
        invariant
            i <= 64,
            raw.len() == 64,
            forall|k: int| 0 <= k < i ==> sentence@[k] == sanitized(raw)[k],
            forall|k: int| i <= k < 64 ==> sentence@[k] == raw[k],
        decreases 64 - i,
    {
        if sentence[i] >= 0x80 {
            sentence[i] = 0;
        }
        i += 1;
    }
}

/// The kinds of sentence that the reader tells apart by their first three
/// characters.
#[derive(Clone, Copy, Debug, PartialEq, Eq, Structural)]
pub enum SentenceKind {
    /// `C.1`: the meter identifier.
    MeterId,
    /// `1.8`: cumulative energy drawn from the grid.
    EnergyIn,
    /// `2.8`: cumulative energy fed into the grid.
    EnergyOut,
    /// Anything else.
    Other,
}

/// The kind of a sentence, by its first three bytes.
pub open spec fn kind_of(sentence: Seq<u8>) -> SentenceKind {
    if sentence.len() < 3 || sentence[1] != FULL_STOP {
        SentenceKind::Other
    } else if sentence[0] == 0x43 && sentence[2] == 0x31 {
        SentenceKind::MeterId
    } else if sentence[0] == 0x31 && sentence[2] == 0x38 {
        SentenceKind::EnergyIn
    } else if sentence[0] == 0x32 && sentence[2] == 0x38 {
        SentenceKind::EnergyOut
    } else {
        SentenceKind::Other
    }
}

/// Whether an energy-in sentence holds the total over all tariffs, `1.8.0`.
pub open spec fn is_total(sentence: Seq<u8>) -> bool {
    sentence.len() >= 5 && sentence[3] == FULL_STOP && sentence[4] == 0x30
}

/// Classifies a sentence.
pub fn classify(sentence: &[u8]) -> (kind: SentenceKind)
    ensures
        kind == kind_of(sentence@),
{
    if sentence.len() < 3 || sentence[1] != FULL_STOP {
        SentenceKind::Other
    } else if sentence[0] == 0x43 && sentence[2] == 0x31 {
        SentenceKind::MeterId
    } else if sentence[0] == 0x31 && sentence[2] == 0x38 {
        SentenceKind::EnergyIn
    } else if sentence[0] == 0x32 && sentence[2] == 0x38 {
        SentenceKind::EnergyOut
    } else {
        SentenceKind::Other
    }
}

/// The effect of one sentence on the data gathered so far, and whether the
/// sentence ends the telegram. A value that cannot be read leaves its field
/// as it was. Either energy sentence ends the telegram, whatever it held.
pub open spec fn after_sentence(data: MeterData, sentence: Seq<u8>) -> (MeterData, bool) {
    match kind_of(sentence) {
        SentenceKind::MeterId => (
            match meter_id_of(sentence) {
                Some(id) => MeterData { meter_id: id, ..data },
                None => data,
            },
            false,
        ),
        SentenceKind::EnergyIn => (
            match energy_value_of(sentence) {
                Some(value) if is_total(sentence) => MeterData { total_in: value, ..data },
                _ => data,
            },
            true,
        ),
        SentenceKind::EnergyOut => (
            match energy_value_of(sentence) {
                Some(value) => MeterData { total_out: value, ..data },
                None => data,
            },
            true,
        ),
        SentenceKind::Other => (data, false),
    }
}

impl MeterData {
    /// Takes in one sanitised sentence. Returns whether it ended the
    /// telegram.
    pub fn record(&mut self, sentence: &[u8]) -> (done: bool)
        ensures
            (*final(self), done) == after_sentence(*old(self), sentence@),
    {
        match classify(sentence) {
            SentenceKind::MeterId => {
                if let Some(id) = meter_id_in(sentence) {
                    self.meter_id = id;
                }
                false
            },
            SentenceKind::EnergyIn => {
                if sentence.len() >= 5 && sentence[3] == FULL_STOP && sentence[4] == 0x30 {
                    if let Some(value) = energy_value_in(sentence) {
                        self.total_in = value;
                    }
                }
                true
            },
            SentenceKind::EnergyOut => {
                if let Some(value) = energy_value_in(sentence) {
                    self.total_out = value;
                }
                true
            },
            SentenceKind::Other => false,
        }
    }
}

/// One step of an exchange: the bytes pending and the data gathered after
/// `byte` arrived, and whether the telegram is over.
pub open spec fn reader_step(pending: Seq<u8>, data: MeterData, byte: u8) -> (
    Seq<u8>,
    MeterData,
    bool,
) {
    let (rest, event) = frame_byte(pending, byte);
    match event {
        Framed::Complete(raw) => {
            let (updated, done) = after_sentence(data, sanitized(raw));
            (rest, updated, done)
        },
        _ => (rest, data, false),
    }
}

/// The outcome of an exchange in which `received` arrives, starting from
/// `pending` and `data`: the data at the first sentence that ends the
/// telegram, and nothing if the bytes run out before.
pub open spec fn read_telegram(pending: Seq<u8>, data: MeterData, received: Seq<u8>) -> Option<
    MeterData,
>
    decreases received.len(),
{
    if received.len() == 0 {
        None
    } else {
        let (rest, updated, done) = reader_step(pending, data, received[0]);
        if done {
            Some(updated)
        } else {
            read_telegram(rest, updated, received.skip(1))
        }
    }
}

/// The reading side of the meter link. It is fed the bytes that the serial
/// port delivers and says when the telegram is complete.
pub struct EnergyMeter {
    framer: SentenceBuffer,
    data: MeterData,
}

impl EnergyMeter {
    /// The bytes of the sentence under construction.
    pub closed spec fn pending(self) -> Seq<u8> {
        self.framer.pending()
    }

    /// The data gathered in this exchange so far.
    pub closed spec fn data(self) -> MeterData {
        self.data
    }

    /// A reader at the start of an exchange.
    pub fn new() -> (meter: EnergyMeter)
        ensures
            meter.pending() == Seq::<u8>::empty(),
            meter.data() == MeterData::empty(),
    {
        EnergyMeter { framer: SentenceBuffer::new(), data: MeterData::default() }
    }

    /// Starts an exchange: forgets what the last one left behind and returns
    /// the start sequence to write to the meter.
    pub fn start(&mut self) -> (request: [u8; 5])
        ensures
            final(self).pending() == Seq::<u8>::empty(),
            final(self).data() == MeterData::empty(),
            request@ == seq![0x2Fu8, 0x3F, 0x21, 0x0D, 0x0A],
    {
        self.framer = SentenceBuffer::new();
        self.data = MeterData::default();
        start_sequence()
    }

    /// Takes in one received byte. Returns the data of the telegram once a
    /// sentence has ended it.
    pub fn feed(&mut self, byte: u8) -> (complete: Option<MeterData>)
        ensures
            (final(self).pending(), final(self).data(), complete is Some) == reader_step(
                old(self).pending(),
                old(self).data(),
                byte,
            ),
            complete matches Some(data) ==> data == final(self).data(),
    {
        match self.framer.push(byte) {
            Framing::Complete(raw) => {
                let mut sentence: [u8; 64] = raw;
                sanitize(&mut sentence);
                if self.data.record(sentence.as_slice()) {
                    Some(self.data)
                } else {
                    None
                }
            },
            _ => None,
        }
    }

    /// Runs a whole exchange over the bytes that arrived before the caller's
    /// deadline. Returns the telegram's data, or nothing if the bytes ended
    /// before the telegram did: data gathered until then is dropped.
    pub fn get_data(&mut self, received: &[u8]) -> (reading: Option<MeterData>)
        ensures
            reading == read_telegram(Seq::<u8>::empty(), MeterData::empty(), received@),
    {
        let _ = self.start();
        let mut i: usize = 0;
        assert(received@.skip(0) =~= received@);
        while i < received.len()
            invariant
                i <= received.len(),
                read_telegram(Seq::<u8>::empty(), MeterData::empty(), received@) == read_telegram(
                    self.pending(),
                    self.data(),
                    received@.skip(i as int),
                ),
            decreases received.len() - i,
        {
            let ghost rest = received@.skip(i as int);
            assert(rest.skip(1) =~= received@.skip(i + 1));
            if let Some(data) = self.feed(received[i]) {
                return Some(data);
            }
            i += 1;
        }
        None
    }
}

/// Resynchronisation: bytes that fill the buffer up without a line feed are
/// thrown away with it. Reading goes on from an empty buffer, with the data
/// gathered so far untouched, as if those bytes had never arrived.
pub proof fn lemma_overlong_sentence_discarded(
    pending: Seq<u8>,
    data: MeterData,
    junk: Seq<u8>,
    rest: Seq<u8>,
)
    requires
        junk.len() > 0,
        pending.len() + junk.len() == METER_SENTENCE_LENGTH,
        forall|i: int| 0 <= i < junk.len() ==> junk[i] != LINE_FEED,
    ensures
        read_telegram(pending, data, junk + rest) == read_telegram(Seq::<u8>::empty(), data, rest),
    decreases junk.len(),
{
    assert((junk + rest).skip(1) =~= junk.skip(1) + rest);
    if junk.len() > 1 {
        lemma_overlong_sentence_discarded(pending.push(junk[0]), data, junk.skip(1), rest);
    }
}

/// The framer never holds a full buffer: after any byte fewer than
/// `METER_SENTENCE_LENGTH` bytes are pending, so the next byte always has room.
pub proof fn lemma_framer_has_room(pending: Seq<u8>, byte: u8)
    requires
        pending.len() < METER_SENTENCE_LENGTH,
    ensures
        frame_byte(pending, byte).0.len() < METER_SENTENCE_LENGTH,
{
}

} // verus!
