use vstd::prelude::*;

verus! {

/// The closed set of terminal decode failures.
///
/// Every decoder returns the first violated invariant and never retries:
/// once one of these is produced, the byte count consumed by the failed
/// attempt is undefined and the caller must discard the stream.
#[derive(Clone, Copy, Debug, PartialEq, Eq, Structural)]
pub enum ParseError {
    /// A declared length would require reading past the available bytes,
    /// or a variable-length integer runs past its four-byte maximum.
    InvalidLength,
    /// A Connect packet's protocol name is not the literal "MQTT" with length 4.
    InvalidProtocol,
    /// A Connect packet declares a protocol level other than the supported one.
    UnsupportedProtocolLevel,
    /// The Connect flags byte has its reserved bit 0 set.
    ConnectReservedFlagSet,
    /// An empty client identifier without the clean-session flag.
    InvalidClientId,
    /// A packet type whose fixed-header flags must match a fixed pattern
    /// carries a different pattern.
    FixedHeaderReservedFlagsMismatch,
    /// A ConnectAck flags byte has bits outside session-present set.
    ConnAckReservedFlagSet,
    /// A fixed-header type code outside the recognized range.
    UnsupportedPacketType,
    /// A length-prefixed string field is not well-formed UTF-8.
    InvalidUtf8,
}

} // verus!
