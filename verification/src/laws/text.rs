//! Numbers as bytes and as text.

use crate::board::SwVersion;
use crate::bytes::{law_be16_value, law_be32_value, to_be16, to_be32};
use crate::message::Message;
use crate::text::{append_decimal, decimal, hex_byte, hex_list, to_hex};
use vstd::prelude::*;

verus! {

/// The number that a text of decimal digits stands for.
pub open spec fn number(text: Seq<char>) -> int
    decreases text.len(),
{
    if text.len() == 0 {
        0
    } else {
        number(text.drop_last()) * 10 + (text.last() as int - '0' as int)
    }
}

/// A text is a number in decimal: one digit or more, none of them a leading zero, and worth the
/// number.
pub open spec fn states(text: Seq<char>, n: int) -> bool {
    &&& text.len() > 0
    &&& forall|i: int| 0 <= i < text.len() ==> '0' <= #[trigger] text[i] <= '9'
    &&& text.len() > 1 ==> text[0] != '0'
    &&& number(text) == n
}

/// The value of a hexadecimal digit in lower case, and 16 for other characters.
pub open spec fn hex_value(c: char) -> int {
    if '0' <= c <= '9' {
        c as int - '0' as int
    } else if 'a' <= c <= 'f' {
        c as int - 'a' as int + 10
    } else {
        16
    }
}

/// Byte `i` stands at its place in a text: four characters for each byte before it and two
/// between each pair of bytes, then `0x` and two digits that are worth the byte. A comma and a
/// space come behind it if another byte does.
pub open spec fn shows(text: Seq<char>, bytes: Seq<u8>, i: int) -> bool {
    &&& text[6 * i] == '0'
    &&& text[6 * i + 1] == 'x'
    &&& hex_value(text[6 * i + 2]) < 16
    &&& hex_value(text[6 * i + 3]) < 16
    &&& hex_value(text[6 * i + 2]) * 16 + hex_value(text[6 * i + 3]) == bytes[i]
    &&& i + 1 < bytes.len() ==> text[6 * i + 4] == ',' && text[6 * i + 5] == ' '
}

/// A text shows bytes, each at its place, and nothing else.
pub open spec fn lists(text: Seq<char>, bytes: Seq<u8>) -> bool {
    &&& text.len() == if bytes.len() == 0 {
        0
    } else {
        6 * bytes.len() - 2
    }
    &&& forall|i: int| 0 <= i < bytes.len() ==> #[trigger] shows(text, bytes, i)
}

/// The decimal text of a number is that number in decimal.
pub proof fn law_decimal_states_its_number(n: nat)
    ensures
        states(decimal(n), n as int),
        n > 0 ==> decimal(n)[0] != '0',
    decreases n,
{
    let text = decimal(n);
    reveal_with_fuel(number, 2);
    if n >= 10 {
        law_decimal_states_its_number(n / 10);
        assert(text.drop_last() == decimal(n / 10));
        assert(text[0] == decimal(n / 10)[0]);
    } else {
        assert(text.drop_last().len() == 0);
    }
}

/// Two texts that state a number state the same number only if they are equal.
pub proof fn law_a_number_has_one_text(a: Seq<char>, b: Seq<char>, n: int)
    requires
        states(a, n),
        states(b, n),
    ensures
        a == b,
    decreases a.len(),
{
    let first = a.drop_last();
    let second = b.drop_last();
    lemma_number_is_positive(a);
    lemma_number_is_positive(b);
    assert(number(first) == n / 10 && a.last() as int - '0' as int == n % 10) by {
        lemma_number_is_not_negative(first);
    }
    assert(number(second) == n / 10 && b.last() as int - '0' as int == n % 10) by {
        lemma_number_is_not_negative(second);
    }
    if a.len() > 1 && b.len() > 1 {
        assert(states(first, n / 10));
        assert(states(second, n / 10));
        law_a_number_has_one_text(first, second, n / 10);
        assert(a == first.push(a.last()));
        assert(b == second.push(b.last()));
    } else {
        reveal_with_fuel(number, 2);
        assert(a == b);
    }
}

/// Digits are worth no less than nothing.
proof fn lemma_number_is_not_negative(text: Seq<char>)
    requires
        forall|i: int| 0 <= i < text.len() ==> '0' <= #[trigger] text[i] <= '9',
    ensures
        0 <= number(text),
    decreases text.len(),
{
    if text.len() > 0 {
        lemma_number_is_not_negative(text.drop_last());
    }
}

/// More than one digit without a leading zero are worth ten or more.
proof fn lemma_number_is_positive(text: Seq<char>)
    requires
        forall|i: int| 0 <= i < text.len() ==> '0' <= #[trigger] text[i] <= '9',
        text.len() > 0,
        text.len() > 1 ==> text[0] != '0',
    ensures
        text[0] != '0' ==> 0 < number(text),
        text.len() > 1 <==> 10 <= number(text),
    decreases text.len(),
{
    reveal_with_fuel(number, 2);
    if text.len() > 1 {
        lemma_number_is_positive(text.drop_last());
    }
}

/// A number is written behind what the text held, and that stays.
pub proof fn law_number_is_appended(text: &mut String, n: u16)
    requires
        call_ensures(append_decimal, (text, n), ()),
    ensures
        call_requires(append_decimal, (text, n)),
        old(text)@.is_prefix_of(final(text)@),
        states(final(text)@.skip(old(text)@.len() as int), n as int),
{
    law_decimal_states_its_number(n as nat);
    assert(final(text)@.skip(old(text)@.len() as int) == decimal(n as nat));
}

/// The list of bytes shows each of them, at its place.
pub proof fn law_hex_list_shows_its_bytes(bytes: Seq<u8>)
    ensures
        lists(hex_list(bytes), bytes),
    decreases bytes.len(),
{
    let text = hex_list(bytes);
    if bytes.len() > 1 {
        let before = bytes.drop_last();
        let start = hex_list(before);
        law_hex_list_shows_its_bytes(before);
        assert forall|i: int| 0 <= i < bytes.len() implies #[trigger] shows(text, bytes, i) by {
            if i + 1 < bytes.len() {
                assert(before[i] == bytes[i]);
                assert(shows(start, before, i));
            } else {
                let last = hex_byte(bytes.last());
                assert(start.len() + 2 == 6 * i);
                assert(text[6 * i + 2] == last[2]);
                assert(text[6 * i + 3] == last[3]);
            }
        }
    }
}

/// Any bytes can be shown, and each of them is, at its place.
pub proof fn law_hex_text_shows_its_bytes(slice: &[u8], text: String)
    requires
        call_ensures(to_hex, (slice,), text),
    ensures
        call_requires(to_hex, (slice,)),
        lists(text@, slice@),
{
    law_hex_list_shows_its_bytes(slice@);
}

/// The text of a message states its sequence number, its length field and the bytes of its body.
pub proof fn law_message_text(message: &Message, text: String)
    requires
        call_ensures(Message::to_string, (message,), text),
    ensures
        call_requires(Message::to_string, (message,)),
        exists|seq: Seq<char>, len: Seq<char>, body: Seq<char>|
            #![trigger
                states(seq, message.seq as int),
                states(len, message.len as int),
                lists(body, message.body@)
            ]
            {
                &&& text@ == "sequence_number="@ + seq + " body_length="@ + len + " body=["@ + body
                    + "]"@
                &&& states(seq, message.seq as int)
                &&& states(len, message.len as int)
                &&& lists(body, message.body@)
            },
{
    law_decimal_states_its_number(message.seq as nat);
    law_decimal_states_its_number(message.len as nat);
    law_hex_list_shows_its_bytes(message.body@);
    assert(states(decimal(message.seq as nat), message.seq as int));
    assert(states(decimal(message.len as nat), message.len as int));
    assert(lists(hex_list(message.body@), message.body@));
}

/// The text of a version states its major number, then a point, then its minor number.
pub proof fn law_version_text(version: &SwVersion, text: String)
    requires
        call_ensures(SwVersion::to_string, (version,), text),
    ensures
        call_requires(SwVersion::to_string, (version,)),
        exists|major: Seq<char>, minor: Seq<char>|
            #![trigger states(major, version.major as int), states(minor, version.minor as int)]
            {
                &&& text@ == major + seq!['.'] + minor
                &&& states(major, version.major as int)
                &&& states(minor, version.minor as int)
            },
{
    law_decimal_states_its_number(version.major as nat);
    law_decimal_states_its_number(version.minor as nat);
    assert(states(decimal(version.major as nat), version.major as int));
    assert(states(decimal(version.minor as nat), version.minor as int));
}

/// A number is sent in two bytes, the more significant one first; what does not fit is left out.
pub proof fn law_two_bytes_of_a_number(value: usize, bytes: Vec<u8>)
    requires
        call_ensures(to_be16, (value,), bytes),
    ensures
        call_requires(to_be16, (value,)),
        bytes@.len() == 2,
        bytes@[0] * 0x100 + bytes@[1] == value as int % 0x1_0000,
{
    law_be16_value(value as int);
}

/// A number is sent in four bytes, the most significant one first; what does not fit is left out.
pub proof fn law_four_bytes_of_a_number(value: usize, bytes: Vec<u8>)
    requires
        call_ensures(to_be32, (value,), bytes),
    ensures
        call_requires(to_be32, (value,)),
        bytes@.len() == 4,
        bytes@[0] * 0x100_0000 + bytes@[1] * 0x1_0000 + bytes@[2] * 0x100 + bytes@[3]
            == value as int % 0x1_0000_0000,
{
    law_be32_value(value as int);
}

} // verus!
