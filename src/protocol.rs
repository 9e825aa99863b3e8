//! What a frame grammar offers the extractor, and the errors it reports.

use crate::buffer::buffer_bytes;
use bytes::BytesMut;
use vstd::prelude::*;

verus! {

/// Why `check` found no frame to hand out.
#[derive(Debug, PartialEq)]
pub enum FrameCheckError {
    /// The buffer does not hold a complete frame yet.
    Incomplete,
    /// The grammar gave up on the buffer.
    Other(String),
}

/// Why a payload was rejected before any field was read.
#[derive(Debug, PartialEq)]
pub enum FrameValidation {
    /// The payload holds a character that is not a digit, whitespace or a
    /// control character; the payload is attached.
    InvalidChars(String),
    /// The payload does not hold exactly four whitespace separators; the
    /// payload is attached.
    WrongNumberOfFields(String),
}

/// Why a payload could not be decoded into a frame.
#[derive(Debug, PartialEq)]
pub enum DecodeError {
    /// The payload is not UTF-8 text.
    NotUtf8,
    /// The payload failed validation.
    Validation(FrameValidation),
    /// A field is not a number in its range, or the fields do not split as
    /// the grammar expects.
    Format,
}

/// A [`DecodeError`] as a value of the specifications, its texts as
/// character sequences.
pub enum DecodeFault {
    NotUtf8,
    InvalidChars(Seq<char>),
    WrongNumberOfFields(Seq<char>),
    Format,
}

impl FrameValidation {
    pub open spec fn fault(&self) -> DecodeFault {
        match self {
            FrameValidation::InvalidChars(s) => DecodeFault::InvalidChars(s@),
            FrameValidation::WrongNumberOfFields(s) => DecodeFault::WrongNumberOfFields(s@),
        }
    }
}

impl DecodeError {
    pub open spec fn fault(&self) -> DecodeFault {
        match self {
            DecodeError::NotUtf8 => DecodeFault::NotUtf8,
            DecodeError::Validation(v) => v.fault(),
            DecodeError::Format => DecodeFault::Format,
        }
    }
}

/// The outcome of `check` with the payload seen as its bytes.
pub open spec fn check_view(r: Result<BytesMut, FrameCheckError>) -> Result<
    Seq<u8>,
    FrameCheckError,
> {
    match r {
        Ok(b) => Ok(buffer_bytes(b)),
        Err(e) => Err(e),
    }
}

/// The outcome of `parse` with its error seen as a [`DecodeFault`].
pub open spec fn decode_view<F>(r: Result<F, DecodeError>) -> Result<F, DecodeFault> {
    match r {
        Ok(f) => Ok(f),
        Err(e) => Err(e.fault()),
    }
}

/// A frame grammar: how to find one frame in an accumulation buffer, and how
/// to turn its payload into a value.
pub trait Frame: Sized {
    /// What `check` does to a buffer holding `before`: its outcome and what
    /// the buffer holds afterwards.
    spec fn check_spec(before: Seq<u8>) -> (Result<Seq<u8>, FrameCheckError>, Seq<u8>);

    /// What `parse` makes of a payload.
    spec fn parse_spec(payload: Seq<u8>) -> Result<Self, DecodeFault>;

    /// Drops what precedes a frame's start and, when a complete frame is
    /// buffered, removes it from the buffer and returns its payload.
    fn check(buffer: &mut BytesMut) -> (r: Result<BytesMut, FrameCheckError>)
        ensures
            (check_view(r), buffer_bytes(*final(buffer))) == Self::check_spec(
                buffer_bytes(*old(buffer)),
            ),
    ;

    /// Decodes a payload that `check` returned.
    fn parse(buffer: BytesMut) -> (r: Result<Self, DecodeError>)
        ensures
            decode_view(r) == Self::parse_spec(buffer_bytes(buffer)),
    ;
}

} // verus!
