//! Parameters of the programmer.

use vstd::prelude::*;

verus! {

/// A parameter that can be read.
pub trait Readable {

}

/// A parameter that can be written.
pub trait Writable {

}

/// Parameters that can only be read.
#[derive(Debug, Clone, Copy, PartialEq, Eq, Structural)]
pub enum RO {
    BuildNumberLow,
    BuildNumberHigh,
    HwVer,
    SwMajor,
    SwMinor,
    /// This parameter only applies to STK500, not the AVRISP.
    TopcardDetect,
    Status,
    Data,
}

impl RO {
    /// The byte that stands for it on the wire.
    pub open spec fn code(self) -> u8 {
        match self {
            RO::BuildNumberLow => 0x80,
            RO::BuildNumberHigh => 0x81,
            RO::HwVer => 0x90,
            RO::SwMajor => 0x91,
            RO::SwMinor => 0x92,
            RO::TopcardDetect => 0x9A,
            RO::Status => 0x9C,
            RO::Data => 0x9D,
        }
    }
}

impl From<RO> for u8 {
    fn from(value: RO) -> (code: u8) {
        match value {
            RO::BuildNumberLow => 0x80,
            RO::BuildNumberHigh => 0x81,
            RO::HwVer => 0x90,
            RO::SwMajor => 0x91,
            RO::SwMinor => 0x92,
            RO::TopcardDetect => 0x9A,
            RO::Status => 0x9C,
            RO::Data => 0x9D,
        }
    }
}

impl vstd::std_specs::convert::FromSpecImpl<RO> for u8 {
    open spec fn obeys_from_spec() -> bool {
        true
    }

    open spec fn from_spec(value: RO) -> u8 {
        value.code()
    }
}

impl Readable for RO {

}

/// Parameters that can be read and written.
#[derive(Debug, Clone, Copy, PartialEq, Eq, Structural)]
pub enum RW {
    Vtarget,
    Vadjust,
    OScPscale,
    OscCmatch,
    SckDuration,
    ControllerInit,
    ResetPolarity,
}

impl RW {
    /// The byte that stands for it on the wire.
    pub open spec fn code(self) -> u8 {
        match self {
            RW::Vtarget => 0x94,
            RW::Vadjust => 0x95,
            RW::OScPscale => 0x96,
            RW::OscCmatch => 0x97,
            RW::SckDuration => 0x98,
            RW::ControllerInit => 0x9F,
            RW::ResetPolarity => 0x9E,
        }
    }
}

impl From<RW> for u8 {
    fn from(value: RW) -> (code: u8) {
        match value {
            RW::Vtarget => 0x94,
            RW::Vadjust => 0x95,
            RW::OScPscale => 0x96,
            RW::OscCmatch => 0x97,
            RW::SckDuration => 0x98,
            RW::ControllerInit => 0x9F,
            RW::ResetPolarity => 0x9E,
        }
    }
}

impl vstd::std_specs::convert::FromSpecImpl<RW> for u8 {
    open spec fn obeys_from_spec() -> bool {
        true
    }

    open spec fn from_spec(value: RW) -> u8 {
        value.code()
    }
}

impl Readable for RW {

}

impl Writable for RW {

}

/// A code belongs to one parameter only.
pub proof fn law_param_codes_are_distinct(a: RO, b: RO, c: RW, d: RW)
    ensures
        a.code() == b.code() ==> a == b,
        c.code() == d.code() ==> c == d,
        a.code() != c.code(),
{
}

} // verus!
