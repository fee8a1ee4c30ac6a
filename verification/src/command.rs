//! Commands that the programmer takes.

use vstd::prelude::*;

verus! {

/// Commands for the programmer itself.
#[derive(Debug, Clone, Copy, PartialEq, Eq, Structural)]
pub enum Normal {
    SignOn,
    SetParameter,
    GetParameter,
    SetDeviceParameters,
    OSCcal,
    LoadAddress,
    FirmwareUpgrade,
    SpiMulti,
    SetControlStack,
    EnterIspMode,
    LeaveIspMode,
}

impl Normal {
    /// The byte that stands for it on the wire.
    pub open spec fn code(self) -> u8 {
        match self {
            Normal::SignOn => 0x01,
            Normal::SetParameter => 0x02,
            Normal::GetParameter => 0x03,
            Normal::SetDeviceParameters => 0x04,
            Normal::OSCcal => 0x05,
            Normal::LoadAddress => 0x06,
            Normal::FirmwareUpgrade => 0x07,
            Normal::SpiMulti => 0x1D,
            Normal::SetControlStack => 0x2D,
            Normal::EnterIspMode => 0x10,
            Normal::LeaveIspMode => 0x11,
        }
    }
}

impl From<Normal> for u8 {
    fn from(value: Normal) -> (code: u8) {
        match value {
            Normal::SignOn => 0x01,
            Normal::SetParameter => 0x02,
            Normal::GetParameter => 0x03,
            Normal::SetDeviceParameters => 0x04,
            Normal::OSCcal => 0x05,
            Normal::LoadAddress => 0x06,
            Normal::FirmwareUpgrade => 0x07,
            Normal::SpiMulti => 0x1D,
            Normal::SetControlStack => 0x2D,
            Normal::EnterIspMode => 0x10,
            Normal::LeaveIspMode => 0x11,
        }
    }
}

impl vstd::std_specs::convert::FromSpecImpl<Normal> for u8 {
    open spec fn obeys_from_spec() -> bool {
        true
    }

    open spec fn from_spec(value: Normal) -> u8 {
        value.code()
    }
}

/// Commands for the chip that is programmed.
#[derive(Debug, Clone, Copy, PartialEq, Eq, Structural)]
pub enum Isp {
    ChipErase,
    ProgramFlash,
    ReadFlash,
    ProgramEeprom,
    ReadEeprom,
    ProgramFuse,
    ReadFuse,
    ProgramLock,
    ReadLock,
    ReadSignature,
    ReadOsccal,
}

impl Isp {
    /// The byte that stands for it on the wire.
    pub open spec fn code(self) -> u8 {
        match self {
            Isp::ChipErase => 0x12,
            Isp::ProgramFlash => 0x13,
            Isp::ReadFlash => 0x14,
            Isp::ProgramEeprom => 0x15,
            Isp::ReadEeprom => 0x16,
            Isp::ProgramFuse => 0x17,
            Isp::ReadFuse => 0x18,
            Isp::ProgramLock => 0x19,
            Isp::ReadLock => 0x1A,
            Isp::ReadSignature => 0x1B,
            Isp::ReadOsccal => 0x1C,
        }
    }
}

impl From<Isp> for u8 {
    fn from(value: Isp) -> (code: u8) {
        match value {
            Isp::ChipErase => 0x12,
            Isp::ProgramFlash => 0x13,
            Isp::ReadFlash => 0x14,
            Isp::ProgramEeprom => 0x15,
            Isp::ReadEeprom => 0x16,
            Isp::ProgramFuse => 0x17,
            Isp::ReadFuse => 0x18,
            Isp::ProgramLock => 0x19,
            Isp::ReadLock => 0x1A,
            Isp::ReadSignature => 0x1B,
            Isp::ReadOsccal => 0x1C,
        }
    }
}

impl vstd::std_specs::convert::FromSpecImpl<Isp> for u8 {
    open spec fn obeys_from_spec() -> bool {
        true
    }

    open spec fn from_spec(value: Isp) -> u8 {
        value.code()
    }
}

/// A code belongs to one command only.
pub proof fn law_command_codes_are_distinct(a: Normal, b: Normal, c: Isp, d: Isp)
    ensures
        a.code() == b.code() ==> a == b,
        c.code() == d.code() ==> c == d,
        a.code() != c.code(),
{
}

} // verus!
