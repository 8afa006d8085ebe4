//! Attachments. An attachment arrives as Base64 text and is stored beside
//! the notes of its notebook.

use crate::text::{decimal, decimal_string};
use vstd::prelude::*;

verus! {

/// Why a text is no Base64.
#[derive(Clone, Copy, Debug, PartialEq, Eq)]
pub enum DecodeFailure {
    /// A symbol that Base64 does not use, or padding where none may
    /// stand: the position and the byte.
    InvalidByte(usize, u8),
    /// The text ends with an incomplete group: the number of symbols.
    InvalidLength(usize),
    /// The last symbol carries bits that belong to no byte: the position
    /// and the byte.
    InvalidLastSymbol(usize, u8),
    /// The padding is missing or wrong.
    InvalidPadding,
}

/// What `data` decodes to under the standard alphabet with padding. The
/// decoding is done by the `base64` crate and is not defined here.
pub uninterp spec fn base64_decoded(data: Seq<char>) -> Result<Seq<u8>, DecodeFailure>;

/// The view of what `decode` returns.
pub open spec fn decoded_view(result: Result<Vec<u8>, DecodeFailure>) -> Result<
    Seq<u8>,
    DecodeFailure,
> {
    match result {
        Ok(bytes) => Ok(bytes@),
        Err(e) => Err(e),
    }
}

/// Calls `decode` of `base64`'s `STANDARD` engine. Trusted: the result,
/// bytes or failure, depends on the characters of `data` alone.
#[verifier::external_body]
fn decode(data: &str) -> (result: Result<Vec<u8>, DecodeFailure>)
    ensures
        decoded_view(result) == base64_decoded(data@),
{
    match base64::Engine::decode(&base64::engine::general_purpose::STANDARD, data) {
        Ok(bytes) => Ok(bytes),
        Err(base64::DecodeError::InvalidByte(at, byte)) => Err(DecodeFailure::InvalidByte(at, byte)),
        Err(base64::DecodeError::InvalidLength(len)) => Err(DecodeFailure::InvalidLength(len)),
        Err(base64::DecodeError::InvalidLastSymbol(at, byte)) => Err(
            DecodeFailure::InvalidLastSymbol(at, byte),
        ),
        Err(base64::DecodeError::InvalidPadding) => Err(DecodeFailure::InvalidPadding),
    }
}

/// How a failure is reported.
pub open spec fn failure_message(failure: DecodeFailure) -> Seq<char> {
    match failure {
        DecodeFailure::InvalidByte(at, byte) => "Invalid symbol "@ + decimal(byte as nat)
            + ", offset "@ + decimal(at as nat) + "."@,
        DecodeFailure::InvalidLength(len) => "Invalid input length: "@ + decimal(len as nat),
        DecodeFailure::InvalidLastSymbol(at, byte) => "Invalid last symbol "@ + decimal(
            byte as nat,
        ) + ", offset "@ + decimal(at as nat) + "."@,
        DecodeFailure::InvalidPadding => "Invalid padding"@,
    }
}

impl DecodeFailure {
    /// The report for this failure.
    pub fn message(&self) -> (text: String)
        ensures
            text@ == failure_message(*self),
    {
        match self {
            DecodeFailure::InvalidByte(at, byte) => {
                let mut text = "Invalid symbol ".to_owned();
                text.append(decimal_string(*byte as usize).as_str());
                text.append(", offset ");
                text.append(decimal_string(*at).as_str());
                text.append(".");
                text
            },
            DecodeFailure::InvalidLength(len) => {
                let mut text = "Invalid input length: ".to_owned();
                text.append(decimal_string(*len).as_str());
                text
            },
            DecodeFailure::InvalidLastSymbol(at, byte) => {
                let mut text = "Invalid last symbol ".to_owned();
                text.append(decimal_string(*byte as usize).as_str());
                text.append(", offset ");
                text.append(decimal_string(*at).as_str());
                text.append(".");
                text
            },
            DecodeFailure::InvalidPadding => "Invalid padding".to_owned(),
        }
    }
}

/// What decoding the attachment `data` gives: its bytes, or the report of
/// why it is no Base64.
pub open spec fn attachment_of(data: Seq<char>) -> Result<Seq<u8>, Seq<char>> {
    match base64_decoded(data) {
        Ok(bytes) => Ok(bytes),
        Err(failure) => Err(failure_message(failure)),
    }
}

/// What `attachment_of` says of a decoding that came out as `decoded`.
pub open spec fn attachment_from(decoded: Result<Seq<u8>, DecodeFailure>) -> Result<
    Seq<u8>,
    Seq<char>,
> {
    match decoded {
        Ok(bytes) => Ok(bytes),
        Err(failure) => Err(failure_message(failure)),
    }
}

/// The view of what `decode_attachment` returns.
pub open spec fn attachment_view(result: Result<Vec<u8>, String>) -> Result<Seq<u8>, Seq<char>> {
    match result {
        Ok(bytes) => Ok(bytes@),
        Err(text) => Err(text@),
    }
}

/// Turns the outcome of a decoding into the bytes to store, or into the
/// report of the failure.
pub fn attachment_bytes(decoded: Result<Vec<u8>, DecodeFailure>) -> (result: Result<
    Vec<u8>,
    String,
>)
    ensures
        attachment_view(result) == attachment_from(decoded_view(decoded)),
{
    match decoded {
        Ok(bytes) => Ok(bytes),
        Err(failure) => Err(failure.message()),
    }
}

/// Decodes the attachment `data`.
pub fn decode_attachment(data: &str) -> (result: Result<Vec<u8>, String>)
    ensures
        attachment_view(result) == attachment_of(data@),
{
    attachment_bytes(decode(data))
}

} // verus!
