//! The node's credentials. They are provisioned as hexadecimal text in the
//! byte order in which network servers show them; the radio stack wants the
//! two identifiers in the opposite order, and the key as it stands.

use vstd::prelude::*;
use vstd::string::StringSliceAdditionalSpecFns;

verus! {

/// What a hexadecimal digit is worth, in either case.
pub open spec fn hex_digit(c: u8) -> Option<u8> {
    if 0x30 <= c <= 0x39 {
        Some((c - 0x30) as u8)
    } else if 0x41 <= c <= 0x46 {
        Some((c - 0x41 + 10) as u8)
    } else if 0x61 <= c <= 0x66 {
        Some((c - 0x61 + 10) as u8)
    } else {
        None
    }
}

/// The input without a leading `0x` or `0X`.
pub open spec fn hex_body(input: Seq<u8>) -> Seq<u8> {
    if input.len() >= 2 && input[0] == 0x30 && (input[1] == 0x78 || input[1] == 0x58) {
        input.skip(2)
    } else {
        input
    }
}

/// Whether `input` is the hexadecimal text of exactly `width` bytes.
pub open spec fn hex_decodes(input: Seq<u8>, width: nat) -> bool {
    &&& input.len() % 2 == 0
    &&& hex_body(input).len() == 2 * width
    &&& forall|i: int| 0 <= i < 2 * width ==> hex_digit(#[trigger] hex_body(input)[i]) is Some
}

/// The bytes that hexadecimal text denotes: two digits a byte, the high
/// digit first.
pub open spec fn hex_decoded(input: Seq<u8>, width: nat) -> Seq<u8> {
    Seq::new(
        width,
        |i: int|
            (16 * hex_digit(hex_body(input)[2 * i]).unwrap() + hex_digit(
                hex_body(input)[2 * i + 1],
            ).unwrap()) as u8,
    )
}

/// `const_hex::FromHexError`, the error of const-hex's decoders. Nothing is
/// claimed of it; it is only carried.
#[verifier::external_type_specification]
#[verifier::external_body]
pub struct ExFromHexError(const_hex::FromHexError);

/// Calls `const_hex::decode_to_array`. That function refuses input of odd
/// length, strips a leading `0x` or `0X`, refuses what is left unless it has
/// two characters for each of the `N` bytes, and then decodes pair by pair,
/// refusing any character that is no hexadecimal digit. Upper and lower case
/// are both taken.
#[verifier::external_body]
fn decode_hex<const N: usize>(input: &str) -> (decoded: Result<[u8; N], const_hex::FromHexError>)
    ensures
        decoded is Ok <==> hex_decodes(input.spec_bytes(), N as nat),
        decoded matches Ok(bytes) ==> bytes@ == hex_decoded(input.spec_bytes(), N as nat),
{
    const_hex::decode_to_array(input)
}

/// The same bytes in the opposite order.
pub fn reversed(bytes: &[u8; 8]) -> (turned: [u8; 8])
    ensures
        turned@ == bytes@.reverse(),
{
    let turned: [u8; 8] = [
        bytes[7],
        bytes[6],
        bytes[5],
        bytes[4],
        bytes[3],
        bytes[2],
        bytes[1],
        bytes[0],
    ];
    turned
}

/// The credentials as the radio stack takes them.
#[derive(Clone, Copy, Debug, PartialEq, Eq)]
pub struct Credentials {
    /// Device identifier, least significant byte first.
    pub dev_eui: [u8; 8],
    /// Application identifier, least significant byte first.
    pub app_eui: [u8; 8],
    /// Application key.
    pub app_key: [u8; 16],
}

/// Which of the provisioned texts is unusable.
#[derive(Clone, Copy, Debug, PartialEq, Eq, Structural)]
pub enum CredentialError {
    /// The device identifier is not the hexadecimal text of 8 bytes.
    DevEui,
    /// The application identifier is not the hexadecimal text of 8 bytes.
    AppEui,
    /// The application key is not the hexadecimal text of 16 bytes.
    AppKey,
}

impl Credentials {
    /// Reads the credentials from their provisioned text. Both identifiers
    /// are turned round; the key is not. The texts are judged in the order
    /// device identifier, application identifier, key, and the first that
    /// fails is reported.
    pub fn from_hex(dev_eui: &str, app_eui: &str, app_key: &str) -> (credentials: Result<
        Credentials,
        CredentialError,
    >)
        ensures
            match credentials {
                Ok(read) => {
                    &&& hex_decodes(dev_eui.spec_bytes(), 8)
                    &&& hex_decodes(app_eui.spec_bytes(), 8)
                    &&& hex_decodes(app_key.spec_bytes(), 16)
                    &&& read.dev_eui@ == hex_decoded(dev_eui.spec_bytes(), 8).reverse()
                    &&& read.app_eui@ == hex_decoded(app_eui.spec_bytes(), 8).reverse()
                    &&& read.app_key@ == hex_decoded(app_key.spec_bytes(), 16)
                },
                Err(CredentialError::DevEui) => !hex_decodes(dev_eui.spec_bytes(), 8),
                Err(CredentialError::AppEui) => {
                    &&& hex_decodes(dev_eui.spec_bytes(), 8)
                    &&& !hex_decodes(app_eui.spec_bytes(), 8)
                },
                Err(CredentialError::AppKey) => {
                    &&& hex_decodes(dev_eui.spec_bytes(), 8)
                    &&& hex_decodes(app_eui.spec_bytes(), 8)
                    &&& !hex_decodes(app_key.spec_bytes(), 16)
                },
            },
    {
        let dev: [u8; 8] = match decode_hex::<8>(dev_eui) {
            Ok(bytes) => bytes,
            Err(_) => { return Err(CredentialError::DevEui); },
        };
        let app: [u8; 8] = match decode_hex::<8>(app_eui) {
            Ok(bytes) => bytes,
            Err(_) => { return Err(CredentialError::AppEui); },
        };
        let key: [u8; 16] = match decode_hex::<16>(app_key) {
            Ok(bytes) => bytes,
            Err(_) => { return Err(CredentialError::AppKey); },
        };
        Ok(Credentials { dev_eui: reversed(&dev), app_eui: reversed(&app), app_key: key })
    }
}

} // verus!
