//! The telemetry frame and its wire encoding.
//!
//! Every field of the frame is a single-precision number. The node's logic
//! never computes with them, so the frame holds each one as its IEEE-754 bit
//! pattern, a 32-bit word, and the encoding puts the words on the wire.

use vstd::prelude::*;

verus! {

/// Number of fields in a frame.
pub const FRAME_FIELDS: usize = 9;

/// Length of an encoded frame in bytes.
pub const FRAME_LENGTH: usize = 36;

/// Largest payload that the radio takes at its lowest data rate.
pub const MAX_PAYLOAD_LENGTH: usize = 49;

/// Bit pattern of the quiet not-a-number, which stands for a reading that is
/// not available.
pub const NAN_BITS: u32 = 0x7FC0_0000;

/// Byte `k` of a word, counted from the least significant.
pub open spec fn le_byte(word: u32, k: int) -> u8 {
    if k == 0 {
        (word % 0x100) as u8
    } else if k == 1 {
        ((word / 0x100) % 0x100) as u8
    } else if k == 2 {
        ((word / 0x1_0000) % 0x100) as u8
    } else {
        (word / 0x100_0000) as u8
    }
}

/// The words one after the other, each as four bytes, least significant
/// byte first.
pub open spec fn wire_bytes(words: Seq<u32>) -> Seq<u8> {
    Seq::new(4 * words.len(), |i: int| le_byte(words[i / 4], i % 4))
}

/// What is transmitted over the air, each field as the bit pattern of a
/// single-precision number.
#[derive(Clone, Copy, Debug, PartialEq, Eq, Structural)]
pub struct Transmission {
    /// Wear of the flash, from 0 (new) to 1 (worn out).
    pub flash_wear_fraction: u32,
    /// Temperature in degrees Celsius.
    pub temperature: u32,
    /// Energy on the main meter in kWh, or not-a-number.
    pub main_meter_kwh: u32,
    /// Energy on pulse channel 0 in kWh.
    pub counter_0_kwh: u32,
    /// Energy on pulse channel 1 in kWh.
    pub counter_1_kwh: u32,
    /// Energy on pulse channel 2 in kWh.
    pub counter_2_kwh: u32,
    /// Energy on pulse channel 3 in kWh.
    pub counter_3_kwh: u32,
    /// Energy on pulse channel 4 in kWh.
    pub counter_4_kwh: u32,
    /// Energy on pulse channel 5 in kWh.
    pub counter_5_kwh: u32,
}

/// `bincode::error::EncodeError`, the error of bincode's encoders. Nothing
/// is claimed of it; it is only carried.
#[verifier::external_type_specification]
#[verifier::external_body]
pub struct ExEncodeError(bincode::error::EncodeError);

/// Calls `bincode::encode_into_slice` on the nine words, with bincode's
/// standard configuration switched to fixed-width integers. In that
/// configuration bincode writes an array element by element without a length
/// in front, and each `u32` as its four little-endian bytes, which is also
/// how it writes an `f32`. The destination has room for all 36 bytes, so the
/// slice writer never runs out of space and every byte of it is written.
#[verifier::external_body]
fn encode_words(words: &[u32; 9], frame: &mut [u8; 36]) -> (written: Result<
    usize,
    bincode::error::EncodeError,
>)
    ensures
        final(frame)@ == wire_bytes(words@),
{
    bincode::encode_into_slice(
        *words,
        frame,
        bincode::config::standard().with_fixed_int_encoding(),
    )
}

impl Transmission {
    /// Assembles a frame. A main meter that gave no reading is entered as
    /// not-a-number.
    pub fn new(
        flash_wear_fraction: u32,
        temperature: u32,
        main_meter_kwh: Option<u32>,
        counter_kwh: [u32; 6],
    ) -> (frame: Transmission)
        ensures
            frame.flash_wear_fraction == flash_wear_fraction,
            frame.temperature == temperature,
            frame.main_meter_kwh == match main_meter_kwh {
                Some(bits) => bits,
                None => NAN_BITS,
            },
            frame.words().skip(3) == counter_kwh@,
    {
        let frame = Transmission {
            flash_wear_fraction,
            temperature,
            main_meter_kwh: match main_meter_kwh {
                Some(bits) => bits,
                None => NAN_BITS,
            },
            counter_0_kwh: counter_kwh[0],
            counter_1_kwh: counter_kwh[1],
            counter_2_kwh: counter_kwh[2],
            counter_3_kwh: counter_kwh[3],
            counter_4_kwh: counter_kwh[4],
            counter_5_kwh: counter_kwh[5],
        };
        frame
    }

    /// The fields in the order in which they are sent.
    pub open spec fn words(self) -> Seq<u32> {
        seq![
            self.flash_wear_fraction,
            self.temperature,
            self.main_meter_kwh,
            self.counter_0_kwh,
            self.counter_1_kwh,
            self.counter_2_kwh,
            self.counter_3_kwh,
            self.counter_4_kwh,
            self.counter_5_kwh,
        ]
    }

    /// The frame as it goes over the air.
    pub open spec fn wire(self) -> Seq<u8> {
        wire_bytes(self.words())
    }

    /// Encodes the frame. The frame's width is fixed by its layout and no
    /// reading can change it, so there is nothing that could fail.
    pub fn encode(&self) -> (bytes: [u8; 36])
        ensures
            bytes@ == self.wire(),
    {
        let words: [u32; 9] = [
            self.flash_wear_fraction,
            self.temperature,
            self.main_meter_kwh,
            self.counter_0_kwh,
            self.counter_1_kwh,
            self.counter_2_kwh,
            self.counter_3_kwh,
            self.counter_4_kwh,
            self.counter_5_kwh,
        ];
        let mut frame: [u8; 36] = [0u8; 36];
        let _ = encode_words(&words, &mut frame);
        frame
    }
}

/// Every frame has the same width on the wire, and that width fits the
/// radio's payload.
pub proof fn lemma_frame_width(frame: Transmission)
    ensures
        frame.wire().len() == FRAME_LENGTH,
        FRAME_LENGTH <= MAX_PAYLOAD_LENGTH,
{
}

/// A frame is encoded field by field: bytes `4 * i` to `4 * i + 3` hold
/// field `i`, least significant byte first, whatever the other fields hold.
pub proof fn lemma_field_on_wire(frame: Transmission, i: int)
    requires
        0 <= i < FRAME_FIELDS,
    ensures
        frame.wire().subrange(4 * i, 4 * i + 4) == seq![
            le_byte(frame.words()[i], 0),
            le_byte(frame.words()[i], 1),
            le_byte(frame.words()[i], 2),
            le_byte(frame.words()[i], 3),
        ],
{
    let field = frame.wire().subrange(4 * i, 4 * i + 4);
    let word = frame.words()[i];
    assert forall|k: int| 0 <= k < 4 implies field[k] == le_byte(word, k) by {
        assert((4 * i + k) / 4 == i && (4 * i + k) % 4 == k);
    }
}

/// A frame assembled without a main-meter reading carries not-a-number in
/// the main-meter field: the bytes `00 00 C0 7F` at offset 8.
pub proof fn lemma_absent_meter_on_wire(frame: Transmission)
    requires
        frame.main_meter_kwh == NAN_BITS,
    ensures
        frame.wire().subrange(8, 12) == seq![0x00u8, 0x00u8, 0xC0u8, 0x7Fu8],
{
    lemma_field_on_wire(frame, 2);
}

/// Encoding is a function of the fields alone: equal frames have equal
/// bytes, and frames with equal bytes are equal.
pub proof fn lemma_wire_determines_frame(a: Transmission, b: Transmission)
    ensures
        a == b <==> a.wire() == b.wire(),
{
    if a.wire() == b.wire() {
        assert forall|i: int| 0 <= i < FRAME_FIELDS implies a.words()[i] == b.words()[i] by {
            lemma_field_on_wire(a, i);
            lemma_field_on_wire(b, i);
            lemma_word_from_bytes(a.words()[i]);
            lemma_word_from_bytes(b.words()[i]);
        }
        assert(a.words() =~= b.words());
    }
}

/// A word is the sum of its four bytes, each at its weight.
pub proof fn lemma_word_from_bytes(word: u32)
    ensures
        word == le_byte(word, 0) + le_byte(word, 1) * 0x100 + le_byte(word, 2) * 0x1_0000
            + le_byte(word, 3) * 0x100_0000,
{
}

} // verus!
