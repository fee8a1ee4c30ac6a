//! What a programmer is made of.

use crate::text::{append_decimal, decimal};
use vstd::prelude::*;

verus! {

/// Version of the programmer's firmware.
#[derive(Debug, Clone, Copy, PartialEq, Eq, Structural)]
pub struct SwVersion {
    pub major: u8,
    pub minor: u8,
}

impl SwVersion {
    /// Major and minor number in decimal, with a point between them.
    pub fn to_string(&self) -> (text: String)
        ensures
            text@ == decimal(self.major as nat) + seq!['.'] + decimal(self.minor as nat),
    {
        proof {
            reveal_strlit(".");
        }
        let mut text = String::new();
        append_decimal(&mut text, self.major as u16);
        text.append(".");
        append_decimal(&mut text, self.minor as u16);
        text
    }
}

/// Cards that can be put on an STK500.
#[derive(Debug, Clone, Copy, PartialEq, Eq, Structural)]
pub enum TopCard {
    STK501,
    STK502,
    STK503,
    STK504,
    STK505,
    STK520,
}

impl TopCard {
    /// The byte that stands for it on the wire.
    pub open spec fn code(self) -> u8 {
        match self {
            TopCard::STK501 => 0xAA,
            TopCard::STK502 => 0x55,
            TopCard::STK503 => 0xFA,
            TopCard::STK504 => 0xEE,
            TopCard::STK505 => 0xE4,
            TopCard::STK520 => 0xDD,
        }
    }
}

impl From<TopCard> for u8 {
    fn from(value: TopCard) -> (code: u8) {
        match value {
            TopCard::STK501 => 0xAA,
            TopCard::STK502 => 0x55,
            TopCard::STK503 => 0xFA,
            TopCard::STK504 => 0xEE,
            TopCard::STK505 => 0xE4,
            TopCard::STK520 => 0xDD,
        }
    }
}

impl vstd::std_specs::convert::FromSpecImpl<TopCard> for u8 {
    open spec fn obeys_from_spec() -> bool {
        true
    }

    open spec fn from_spec(value: TopCard) -> u8 {
        value.code()
    }
}

/// A code belongs to one card only.
pub proof fn law_top_card_codes_are_distinct(a: TopCard, b: TopCard)
    ensures
        a.code() == b.code() ==> a == b,
{
}

} // verus!
