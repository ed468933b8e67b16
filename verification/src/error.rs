//! The failures that decoding and encoding report.

use vstd::prelude::*;

verus! {

/// Why a buffer could not be decoded, or a value not encoded.
#[derive(Debug, Clone, Copy, PartialEq, Eq, Structural)]
pub enum CodecError {
    /// Fewer bytes are available than the header or the payload needs.
    TruncatedBuffer,
    /// The type code in the header is unknown, or names a kind that the codec
    /// does not implement.
    UnsupportedType,
    /// The payload of a string is not valid UTF-8.
    InvalidText,
    /// The value handed to the encoder is of a kind that the codec does not
    /// implement. Every `Variant` is of a kind that it implements, so the
    /// encoder is proved never to report this.
    UnsupportedVariant,
}

impl CodecError {
    /// A short description of the failure.
    pub fn message(&self) -> (text: &'static str)
        ensures
            text@ == self.spec_message()@,
    {
        match self {
            CodecError::TruncatedBuffer => "byte slice too short for the value it announces",
            CodecError::UnsupportedType => "unsupported type index",
            CodecError::InvalidText => "string payload is not valid UTF-8",
            CodecError::UnsupportedVariant => "variant is not supported by the encoder",
        }
    }

    /// The description that `message` returns.
    pub open spec fn spec_message(&self) -> &'static str {
        match self {
            CodecError::TruncatedBuffer => "byte slice too short for the value it announces",
            CodecError::UnsupportedType => "unsupported type index",
            CodecError::InvalidText => "string payload is not valid UTF-8",
            CodecError::UnsupportedVariant => "variant is not supported by the encoder",
        }
    }
}

} // verus!
