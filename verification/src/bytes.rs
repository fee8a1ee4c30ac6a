//! Big endian integers, as the protocol sends them.

use vstd::prelude::*;

verus! {

/// The two low bytes of `value`, the more significant one first.
pub open spec fn be16(value: int) -> Seq<u8> {
    seq![((value / 0x100) % 0x100) as u8, (value % 0x100) as u8]
}

/// The four low bytes of `value`, the most significant one first.
pub open spec fn be32(value: int) -> Seq<u8> {
    be16(value / 0x1_0000) + be16(value)
}

/// The number that two big endian bytes stand for.
pub open spec fn from_be16(high: u8, low: u8) -> int {
    high * 0x100 + low
}

/// Reading two bytes gives back the number that was written.
pub proof fn lemma_be16_round_trip(value: int)
    requires
        0 <= value < 0x1_0000,
    ensures
        from_be16(be16(value)[0], be16(value)[1]) == value,
{
}

/// The four bytes are worth the number, modulo 2 to the 32.
pub proof fn law_be32_value(value: int)
    requires
        0 <= value,
    ensures
        be32(value).len() == 4,
        be32(value)[0] * 0x100_0000 + be32(value)[1] * 0x1_0000 + be32(value)[2] * 0x100 + be32(
            value,
        )[3] == value % 0x1_0000_0000,
{
    let high = value / 0x1_0000;
    assert(be32(value)[0] == (high / 0x100) % 0x100);
    assert(be32(value)[1] == high % 0x100);
    assert(be32(value)[2] == (value / 0x100) % 0x100);
    assert(be32(value)[3] == value % 0x100);
    assert(((high / 0x100) % 0x100) * 0x100 + high % 0x100 == high % 0x1_0000);
    assert(((value / 0x100) % 0x100) * 0x100 + value % 0x100 == value % 0x1_0000);
    assert((high % 0x1_0000) * 0x1_0000 + value % 0x1_0000 == value % 0x1_0000_0000);
}

/// The two bytes are worth the number, modulo 2 to the 16.
pub proof fn law_be16_value(value: int)
    requires
        0 <= value,
    ensures
        be16(value).len() == 2,
        be16(value)[0] * 0x100 + be16(value)[1] == value % 0x1_0000,
{
}

/// Different numbers of 32 bits have different bytes.
pub proof fn law_be32_is_injective(a: int, b: int)
    requires
        0 <= a < 0x1_0000_0000,
        0 <= b < 0x1_0000_0000,
        be32(a) == be32(b),
    ensures
        a == b,
{
    law_be32_value(a);
    law_be32_value(b);
}

/// The two low bytes of `value` in big endian order.
pub fn to_be16(value: usize) -> (bytes: Vec<u8>)
    ensures
        bytes@ == be16(value as int),
{
    vec![((value / 0x100) % 0x100) as u8, (value % 0x100) as u8]
}

/// The four low bytes of `value` in big endian order.
pub fn to_be32(value: usize) -> (bytes: Vec<u8>)
    ensures
        bytes@ == be32(value as int),
{
    vec![
        ((value / 0x1_0000 / 0x100) % 0x100) as u8,
        ((value / 0x1_0000) % 0x100) as u8,
        ((value / 0x100) % 0x100) as u8,
        (value % 0x100) as u8,
    ]
}

} // verus!
