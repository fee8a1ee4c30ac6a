//! What can go wrong between the host and the programmer.

use vstd::prelude::*;

verus! {

/// Why an answer of the programmer was not usable.
#[derive(Debug, Clone, Copy, PartialEq, Eq, Structural)]
pub enum ErrorKind {
    /// The checksum byte is not the XOR of the bytes before it.
    ChecksumError,
    /// The answer does not carry the sequence number of the message sent.
    SequenceError,
    /// The answer is for another command than the one sent.
    AnswerIdError,
    /// The programmer reports another status than `Status::CmdOk`.
    StatusError,
    /// The programmer's name is not UTF-8 text.
    Utf8Error,
}

} // verus!
