use vstd::prelude::*;

verus! {

/// Errors raised while building packets.
#[derive(Debug, Clone, Copy, PartialEq, Eq, Structural)]
pub enum BuildError {
    OutOfMaxRemainingLength(usize),
    MessageTypeError(usize),
}

/// Errors raised while encoding or decoding packets.
#[derive(Debug, Clone, Copy, PartialEq, Eq, Structural)]
pub enum ProtoError {
    NotKnow,
    QoSError(u8),
    FixedHeaderLengthError(usize),
    DupValueError(u8),
    RetainValueError(u8),
    OutOfMaxRemainingLength(usize),
    MessageTypeError(BuildError),
    ReadTopicError,
    DecodeGeneralVariableHeaderError,
    DecodeFixedHeaderError,
    EncodeVariableHeaderError,
    EncodeRemainingLengthError,
    UnsupportedVersion(u8),
    UnknownProperty(u8),
    InvalidPropertyLength(usize),
    InvalidReasonCode(u8),
    UnknownReasonCode(u8),
    MalformedUserProperty,
    InvalidAuthMethod,
    OutOfMaxPropertySize,
}

} // verus!
