use vstd::prelude::*;

verus! {

/// Errors of the wire codec and the frame decoder.
///
/// `Incomplete` is backpressure, not a fault: the caller retries once more
/// bytes have arrived. Every other variant is fatal to the one connection.
#[derive(Clone, Copy, Debug, PartialEq, Eq, Structural)]
pub enum CodecError {
    /// A read needed more bytes than the buffer holds.
    Truncated,
    /// A VarInt ran past five bytes of significant data.
    VarIntTooBig,
    /// A VarLong ran past ten bytes of significant data.
    VarLongTooBig,
    /// A length-prefixed string did not hold valid UTF-8.
    InvalidUtf8,
    /// A position coordinate does not fit its packed bit width.
    OutOfRange,
    /// A packet id that the current protocol state does not know.
    UnknownPacket,
    /// Fewer bytes than a frame's declared length are buffered; retry later.
    Incomplete,
    /// Structurally bad content: a negative length, a frame whose payload
    /// does not match its declared length, or a field with no legal meaning.
    Malformed,
}

/// Errors of the handshake authenticator.
#[derive(Clone, Copy, Debug, PartialEq, Eq, Structural)]
pub enum EngineError {
    /// The RSA-decrypted verify token did not equal the connection's challenge.
    ChallengeMismatch,
    /// An RSA operation failed (bad padding, wrong key, oversized input).
    DecryptFailed,
    /// The session collaborator rejected or failed to confirm the profile.
    AuthenticationFailed,
    /// A symmetric cipher could not be created or driven.
    CipherFailed,
    /// A packet could not be encoded for transmission.
    Codec(CodecError),
}

} // verus!
