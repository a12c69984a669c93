use vstd::prelude::*;

verus! {

/// The ways a request, a frame or a metadata log can fail to be handled.
#[derive(Debug, Clone, Copy, PartialEq, Eq, Structural)]
pub enum KafkaError {
    /// The stream or file could not be read or written.
    Io,
    /// The input ended in the middle of a structure.
    Truncated,
    /// A varint ran past its maximum width or overflowed its integer type.
    MalformedVarint,
    /// A tag byte (such as a metadata record's type) names no known variant.
    InvalidEnum { value: u8 },
    /// A frame's size prefix was negative.
    NegativeFrameSize,
    /// The request names an API that is not served.
    UnsupportedApiKey { api_key: i16 },
    /// The request names a version of a served API that is not supported.
    UnsupportedVersion { api_key: i16, api_version: i16 },
    /// A field that cannot be null arrived as null.
    ProtocolViolation,
}

} // verus!
