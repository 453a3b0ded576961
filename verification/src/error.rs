//! The ways in which an exchange can fail.

use vstd::prelude::*;

verus! {

/// Why a frame, a payload or a reply was not accepted.
///
/// An unknown token and a nonce that does not verify are no errors: the
/// server answers both with a rejection.
#[derive(Debug, Clone, Copy, PartialEq, Eq, Structural)]
pub enum ErrorKind {
    /// Connecting, reading or writing failed underneath the codec.
    Transport,
    /// A frame, declared or about to be sent, is larger than the limit.
    FrameTooLarge,
    /// The stream ended before the frame was whole.
    Truncated,
    /// More bytes arrived than the frame's prefix announced.
    Desync,
    /// The payload is not the encoding of any message.
    Decode,
    /// The reply is a valid message, but of the wrong variant.
    UnexpectedVariant,
}

impl ErrorKind {
    /// The sentence that describes the error.
    pub open spec fn text(self) -> Seq<char> {
        match self {
            ErrorKind::Transport => "Transport error."@,
            ErrorKind::FrameTooLarge => "Frame too large."@,
            ErrorKind::Truncated => "Truncated frame."@,
            ErrorKind::Desync => "Framing out of step."@,
            ErrorKind::Decode => "Undecodable payload."@,
            ErrorKind::UnexpectedVariant => "Unexpected variant."@,
        }
    }

    /// The sentence that describes the error, for a log or a terminal.
    pub fn message(&self) -> (text: &'static str)
        ensures
            text@ == self.text(),
    {
        match self {
            ErrorKind::Transport => "Transport error.",
            ErrorKind::FrameTooLarge => "Frame too large.",
            ErrorKind::Truncated => "Truncated frame.",
            ErrorKind::Desync => "Framing out of step.",
            ErrorKind::Decode => "Undecodable payload.",
            ErrorKind::UnexpectedVariant => "Unexpected variant.",
        }
    }
}

} // verus!
