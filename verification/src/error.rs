//! The ways in which reading metadata or stripping an image can fail.

use vstd::prelude::*;
use vstd::string::StringExecFns;

verus! {

/// Why no tags could be read from a byte source.
#[derive(Clone, Copy, Debug, PartialEq, Eq, Structural)]
pub enum MetadataError {
    /// The byte source holds no metadata container: an expected outcome.
    NotFound,
    /// A container is present but its structure is broken.
    MalformedContainer,
}

/// Why no stripped copy of an image could be produced.
#[derive(Clone, Copy, Debug, PartialEq, Eq, Structural)]
pub enum StripError {
    /// The bytes are not an image that the codec can decode.
    DecodeError,
    /// The path names no file from which an output name could be derived.
    InvalidPath,
    /// The stripped copy could not be produced or stored.
    WriteError,
}

impl MetadataError {
    /// The text of `message`.
    pub open spec fn message_text(self) -> Seq<char> {
        match self {
            MetadataError::NotFound => "no metadata container found"@,
            MetadataError::MalformedContainer => "malformed metadata container"@,
        }
    }

    /// A human-readable cause.
    pub fn message(&self) -> (s: String)
        ensures
            s@ == self.message_text(),
    {
        match self {
            MetadataError::NotFound => String::from_str("no metadata container found"),
            MetadataError::MalformedContainer => String::from_str("malformed metadata container"),
        }
    }
}

impl StripError {
    /// The text of `message`.
    pub open spec fn message_text(self) -> Seq<char> {
        match self {
            StripError::DecodeError => "the image could not be decoded"@,
            StripError::InvalidPath => "the path has no file name"@,
            StripError::WriteError => "the stripped image could not be written"@,
        }
    }

    /// A human-readable cause.
    pub fn message(&self) -> (s: String)
        ensures
            s@ == self.message_text(),
    {
        match self {
            StripError::DecodeError => String::from_str("the image could not be decoded"),
            StripError::InvalidPath => String::from_str("the path has no file name"),
            StripError::WriteError => String::from_str("the stripped image could not be written"),
        }
    }
}

} // verus!
