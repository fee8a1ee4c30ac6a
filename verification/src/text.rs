//! Numbers as text, for the log.

use vstd::prelude::*;

verus! {

/// The digit of value `d`, below 16.
pub open spec fn digit(d: int) -> char {
    seq![
        '0',
        '1',
        '2',
        '3',
        '4',
        '5',
        '6',
        '7',
        '8',
        '9',
        'a',
        'b',
        'c',
        'd',
        'e',
        'f',
    ][d]
}

/// `n` in decimal, without leading zeros.
pub open spec fn decimal(n: nat) -> Seq<char>
    decreases n,
{
    if n < 10 {
        seq![digit(n as int)]
    } else {
        decimal(n / 10).push(digit((n % 10) as int))
    }
}

/// A byte as `0x` and two hexadecimal digits.
pub open spec fn hex_byte(byte: u8) -> Seq<char> {
    seq!['0', 'x', digit(byte as int / 16), digit(byte as int % 16)]
}

/// The bytes in hexadecimal, with a comma and a space between two of them.
pub open spec fn hex_list(bytes: Seq<u8>) -> Seq<char>
    decreases bytes.len(),
{
    if bytes.len() == 0 {
        seq![]
    } else if bytes.len() == 1 {
        hex_byte(bytes[0])
    } else {
        hex_list(bytes.drop_last()) + seq![',', ' '] + hex_byte(bytes.last())
    }
}

/// The digit of value `d`, as text.
fn digit_text(d: u8) -> (text: &'static str)
    requires
        d < 16,
    ensures
        text@ == seq![digit(d as int)],
{
    proof {
        reveal_strlit("0");
        reveal_strlit("1");
        reveal_strlit("2");
        reveal_strlit("3");
        reveal_strlit("4");
        reveal_strlit("5");
        reveal_strlit("6");
        reveal_strlit("7");
        reveal_strlit("8");
        reveal_strlit("9");
        reveal_strlit("a");
        reveal_strlit("b");
        reveal_strlit("c");
        reveal_strlit("d");
        reveal_strlit("e");
        reveal_strlit("f");
    }
    match d {
        0 => "0",
        1 => "1",
        2 => "2",
        3 => "3",
        4 => "4",
        5 => "5",
        6 => "6",
        7 => "7",
        8 => "8",
        9 => "9",
        10 => "a",
        11 => "b",
        12 => "c",
        13 => "d",
        14 => "e",
        _ => "f",
    }
}

/// Writes `n` in decimal behind `text`.
pub fn append_decimal(text: &mut String, n: u16)
    ensures
        final(text)@ == old(text)@ + decimal(n as nat),
    decreases n,
{
    if n >= 10 {
        append_decimal(text, n / 10);
    }
    text.append(digit_text((n % 10) as u8));
}

/// The bytes in hexadecimal, with a comma and a space between two of them.
pub fn to_hex(slice: &[u8]) -> (text: String)
    ensures
        text@ == hex_list(slice@),
{
    let mut text = String::new();
    let mut i: usize = 0;
    while i < slice.len()
        invariant
            i <= slice@.len(),
            text@ == hex_list(slice@.take(i as int)),
        decreases slice@.len() - i,
    {
        proof {
            reveal_strlit(", ");
            reveal_strlit("0x");
            assert(slice@.take(i + 1).drop_last() == slice@.take(i as int));
        }
        if i > 0 {
            text.append(", ");
        }
        text.append("0x");
        text.append(digit_text(slice[i] / 16));
        text.append(digit_text(slice[i] % 16));
        assert(text@ == hex_list(slice@.take(i + 1)));
        i = i + 1;
    }
    assert(slice@.take(i as int) == slice@);
    text
}

} // verus!
