//! How a command went.

use vstd::prelude::*;

verus! {

/// What the programmer reports in the second byte of an answer.
#[derive(Debug, Clone, Copy, PartialEq, Eq, Structural)]
pub enum Status {
    CmdOk,
    CmdTimeout,
    RdyBsyTout,
    SetParamMissing,
    CmdFailed,
    UnknownCmd,
    CheckSumError,
    AnswerChecksumError,
}

impl Status {
    /// The byte that stands for it on the wire.
    pub open spec fn code(self) -> u8 {
        match self {
            Status::CmdOk => 0x00,
            Status::CmdTimeout => 0x80,
            Status::RdyBsyTout => 0x81,
            Status::SetParamMissing => 0x82,
            Status::CmdFailed => 0xC0,
            Status::UnknownCmd => 0xC9,
            Status::CheckSumError => 0xC1,
            Status::AnswerChecksumError => 0xB0,
        }
    }
}

impl From<Status> for u8 {
    fn from(value: Status) -> (code: u8) {
        match value {
            Status::CmdOk => 0x00,
            Status::CmdTimeout => 0x80,
            Status::RdyBsyTout => 0x81,
            Status::SetParamMissing => 0x82,
            Status::CmdFailed => 0xC0,
            Status::UnknownCmd => 0xC9,
            Status::CheckSumError => 0xC1,
            Status::AnswerChecksumError => 0xB0,
        }
    }
}

impl vstd::std_specs::convert::FromSpecImpl<Status> for u8 {
    open spec fn obeys_from_spec() -> bool {
        true
    }

    open spec fn from_spec(value: Status) -> u8 {
        value.code()
    }
}

/// A code belongs to one status only.
pub proof fn law_status_codes_are_distinct(a: Status, b: Status)
    ensures
        a.code() == b.code() ==> a == b,
{
}

} // verus!
