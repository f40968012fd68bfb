//! Base32 and base64 text, as the `data-encoding` crate writes and reads it.

use vstd::prelude::*;
use vstd::utf8::encode_utf8;

verus! {

/// The two alphabets in use.
#[derive(Debug, Clone, Copy, PartialEq, Eq, Structural)]
pub enum Alphabet {
    /// Base32 over the extended-hex alphabet of DNSSEC: lower case, no padding.
    Base32Dnssec,
    /// Padded base64.
    Base64,
}

/// Why a text could not be decoded.
#[derive(Debug, Clone, Copy, PartialEq, Eq, Structural)]
pub enum DecodeKind {
    /// The length of the text is invalid.
    Length,
    /// A character is not a symbol of the alphabet.
    Symbol,
    /// The trailing bits are not zero.
    Trailing,
    /// The padding has an invalid length.
    Padding,
}

/// A decoding failure: where in the text, and why.
#[derive(Debug, Clone, Copy, PartialEq, Eq, Structural)]
pub struct DecodeError {
    pub position: usize,
    pub kind: DecodeKind,
}

/// The text that `data_encoding::Encoding::encode` gives for `input` in the
/// given alphabet.
pub uninterp spec fn encoded(alphabet: Alphabet, input: Seq<u8>) -> Seq<char>;

/// What `data_encoding::Encoding::decode` gives for `text` in the given
/// alphabet: the bytes, or the first failure.
pub uninterp spec fn decoded(alphabet: Alphabet, text: Seq<u8>) -> Result<Seq<u8>, DecodeError>;

/// The limit on the input of an encoder, in bytes.
pub open spec fn encode_limit() -> int {
    (usize::MAX / 512) as int
}

/// The limit on the input of a decoder, in bytes.
pub open spec fn decode_limit() -> int {
    (usize::MAX / 8) as int
}

/// Whether `c` is one of the 32 symbols `0-9a-v`.
pub open spec fn is_base32_dnssec_symbol(c: char) -> bool {
    ('0' <= c && c <= '9') || ('a' <= c && c <= 'v')
}

/// The byte with an ASCII capital letter turned into its small letter.
pub open spec fn lower_byte(b: u8) -> u8 {
    if 65 <= b && b <= 90 {
        (b + 32) as u8
    } else {
        b
    }
}

/// The bytes with every ASCII capital letter turned into its small letter.
pub open spec fn lowercase(text: Seq<u8>) -> Seq<u8> {
    text.map_values(|b: u8| lower_byte(b))
}

/// The number of characters that base32 without padding takes for `n`
/// bytes: one for every five bits, the last one filled up.
pub open spec fn base32_len(n: nat) -> nat {
    ((8 * n + 4) / 5) as nat
}

/// The number of characters that padded base64 takes for `n` bytes: four
/// for every three bytes, the last three filled up.
pub open spec fn base64_len(n: nat) -> nat {
    ((n + 2) / 3 * 4) as nat
}

/// Whether the text decodes to the bytes.
pub open spec fn reads_back(alphabet: Alphabet, text: Seq<char>, bytes: Seq<u8>) -> bool {
    decoded(alphabet, encode_utf8(text)) == Ok::<Seq<u8>, DecodeError>(bytes)
}

/// The outcome of a decoder, by the view of the bytes.
pub open spec fn outcome(r: Result<Vec<u8>, DecodeError>) -> Result<Seq<u8>, DecodeError> {
    match r {
        Ok(bytes) => Ok(bytes@),
        Err(e) => Err(e),
    }
}

/// Encodes bytes in base32-dnssec.
///
/// Calls `data_encoding::BASE32_DNSSEC.encode`. The result is named
/// `encoded(Alphabet::Base32Dnssec, ..)`; what is claimed beyond the name is
/// what the crate documents: of this constant, that it writes the symbols
/// `0123456789abcdefghijklmnopqrstuv` only, in lower case and without
/// padding, which makes one character for every five bits; of all its
/// encodings, that encoding followed by decoding gives the initial data. Inputs over `usize::MAX / 512` bytes are left out, as
/// the crate may panic on them.
#[verifier::external_body]
pub(crate) fn base32_dnssec_encode(input: &[u8]) -> (text: String)
    requires
        input@.len() <= encode_limit(),
    ensures
        text@ == encoded(Alphabet::Base32Dnssec, input@),
        forall|i: int| 0 <= i < text@.len() ==> is_base32_dnssec_symbol(#[trigger] text@[i]),
        text@.len() == base32_len(input@.len()),
        reads_back(Alphabet::Base32Dnssec, text@, input@),
{
    data_encoding::BASE32_DNSSEC.encode(input)
}

/// Decodes base32-dnssec text.
///
/// Calls `data_encoding::BASE32_DNSSEC.decode`. The result is named
/// `decoded(Alphabet::Base32Dnssec, ..)`; what is claimed beyond the name is
/// what the crate documents of this constant: decoding does not tell capital
/// from small letters. Inputs over `usize::MAX / 8` bytes are left out, as
/// the crate may panic on them.
#[verifier::external_body]
pub(crate) fn base32_dnssec_decode(text: &[u8]) -> (r: Result<Vec<u8>, DecodeError>)
    requires
        text@.len() <= decode_limit(),
    ensures
        outcome(r) == decoded(Alphabet::Base32Dnssec, text@),
        outcome(r) == decoded(Alphabet::Base32Dnssec, lowercase(text@)),
{
    match data_encoding::BASE32_DNSSEC.decode(text) {
        Ok(bytes) => Ok(bytes),
        Err(e) => Err(DecodeError {
            position: e.position,
            kind: match e.kind {
                data_encoding::DecodeKind::Length => DecodeKind::Length,
                data_encoding::DecodeKind::Symbol => DecodeKind::Symbol,
                data_encoding::DecodeKind::Trailing => DecodeKind::Trailing,
                data_encoding::DecodeKind::Padding => DecodeKind::Padding,
            },
        }),
    }
}

/// Encodes bytes in padded base64.
///
/// Calls `data_encoding::BASE64.encode`; the result is named
/// `encoded(Alphabet::Base64, ..)`. What is claimed beyond the name is what
/// the crate documents: of this constant, that it pads, which makes four
/// characters for every three bytes; of all its encodings, that encoding
/// followed by decoding gives the initial data. Inputs over `usize::MAX / 512` bytes are left
/// out, as the crate may panic on them.
#[verifier::external_body]
pub(crate) fn base64_encode(input: &[u8]) -> (text: String)
    requires
        input@.len() <= encode_limit(),
    ensures
        text@ == encoded(Alphabet::Base64, input@),
        text@.len() == base64_len(input@.len()),
        reads_back(Alphabet::Base64, text@, input@),
{
    data_encoding::BASE64.encode(input)
}

/// Decodes padded base64 text.
///
/// Calls `data_encoding::BASE64.decode`; the result is named
/// `decoded(Alphabet::Base64, ..)`. Inputs over `usize::MAX / 8` bytes are
/// left out, as the crate may panic on them.
#[verifier::external_body]
pub(crate) fn base64_decode(text: &[u8]) -> (r: Result<Vec<u8>, DecodeError>)
    requires
        text@.len() <= decode_limit(),
    ensures
        outcome(r) == decoded(Alphabet::Base64, text@),
{
    match data_encoding::BASE64.decode(text) {
        Ok(bytes) => Ok(bytes),
        Err(e) => Err(DecodeError {
            position: e.position,
            kind: match e.kind {
                data_encoding::DecodeKind::Length => DecodeKind::Length,
                data_encoding::DecodeKind::Symbol => DecodeKind::Symbol,
                data_encoding::DecodeKind::Trailing => DecodeKind::Trailing,
                data_encoding::DecodeKind::Padding => DecodeKind::Padding,
            },
        }),
    }
}

} // verus!
