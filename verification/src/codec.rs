//! Types shared by codecs: representations of byte sizes, errors, and created codecs.

use vstd::prelude::*;

use crate::crc32c::Crc32cCodec;
use crate::metadata::ConfigurationInvalidError;

verus! {

/// The size of a byte sequence, known or variable.
#[derive(Copy, Clone, Debug, PartialEq, Eq, Structural)]
pub enum BytesRepresentation {
    /// The size is known.
    KnownSize(u64),
    /// The size is variable.
    VariableSize,
}

/// A codec error.
#[derive(Debug)]
pub enum CodecError {
    /// A checksum did not match.
    InvalidChecksum,
    /// Any other error, with its message.
    Other(String),
}

/// A codec created from metadata.
#[derive(Clone, Debug)]
pub enum Codec {
    /// A bytes to bytes codec.
    BytesToBytes(Crc32cCodec),
}

/// An error creating a plugin.
pub enum PluginCreateError {
    /// The configuration is invalid.
    ConfigurationInvalid(ConfigurationInvalidError),
}

} // verus!
