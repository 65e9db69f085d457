//! Error taxonomy of the decoder.

use vstd::prelude::*;

verus! {

/// Everything that can go wrong while reading a Monkey's Audio stream.
#[derive(Debug)]
pub enum ApeError {
    /// The input does not begin with the magic bytes `MAC ` after an
    /// optional ID3v2 tag.
    InvalidMagic,
    /// The format version is below 3990, which this decoder does not read.
    UnsupportedVersion(u16),
    /// The compression level is not one of 1000, 2000, 3000, 4000, 5000.
    UnsupportedCompressionLevel(u16),
    /// A header field holds a value outside the supported range.
    InvalidHeader(String),
    /// A frame index fell outside the seek table.
    InvalidSeekTable,
    /// A frame's checksum did not match its contents.
    CrcMismatch { frame: u32, expected: u32, actual: u32 },
    /// The range coder reached a state it cannot decode from.
    RangeCoderError(String),
    /// The compressed data ended before the decoder was done.
    UnexpectedEof,
    /// The underlying byte source failed.
    Io,
}

/// The description `message` returns for each variant.
pub open spec fn message_of(e: ApeError) -> Seq<char> {
    match e {
        ApeError::InvalidMagic => "not a Monkey's Audio stream (invalid magic)"@,
        ApeError::UnsupportedVersion(_) => "unsupported format version"@,
        ApeError::UnsupportedCompressionLevel(_) => "unsupported compression level"@,
        ApeError::InvalidHeader(_) => "invalid header"@,
        ApeError::InvalidSeekTable => "invalid or missing seek table"@,
        ApeError::CrcMismatch { .. } => "frame checksum mismatch"@,
        ApeError::RangeCoderError(_) => "range coder error"@,
        ApeError::UnexpectedEof => "unexpected end of compressed data"@,
        ApeError::Io => "byte source failure"@,
    }
}

impl ApeError {
    /// A short human-readable description of the error.
    pub fn message(&self) -> (r: String)
        ensures
            r@ == message_of(*self),
    {
        match self {
            ApeError::InvalidMagic => "not a Monkey's Audio stream (invalid magic)".to_owned(),
            ApeError::UnsupportedVersion(_) => "unsupported format version".to_owned(),
            ApeError::UnsupportedCompressionLevel(_) => "unsupported compression level".to_owned(),
            ApeError::InvalidHeader(_) => "invalid header".to_owned(),
            ApeError::InvalidSeekTable => "invalid or missing seek table".to_owned(),
            ApeError::CrcMismatch { .. } => "frame checksum mismatch".to_owned(),
            ApeError::RangeCoderError(_) => "range coder error".to_owned(),
            ApeError::UnexpectedEof => "unexpected end of compressed data".to_owned(),
            ApeError::Io => "byte source failure".to_owned(),
        }
    }
}

} // verus!
