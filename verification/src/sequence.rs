//! Sequence numbers of messages.

use vstd::prelude::*;

verus! {

/// Incremented by one for each message sent.
/// Wraps to zero after 0xFF is reached.
pub struct SequenceGenerator {
    pub count: u8,
}

/// The number after `number`.
pub open spec fn following(number: u8) -> u8 {
    ((number + 1) % 0x100) as u8
}

/// The number that comes `n` numbers after `number`.
pub open spec fn nth_following(number: u8, n: nat) -> u8 {
    ((number + n) % 0x100) as u8
}

impl SequenceGenerator {
    pub fn new() -> (generator: SequenceGenerator)
        ensures
            generator.count == 0,
    {
        SequenceGenerator { count: 0 }
    }

    /// The next number. There always is one.
    pub fn next(&mut self) -> (number: Option<u8>)
        ensures
            number == Some(old(self).count),
            final(self).count == following(old(self).count),
    {
        let ret = Some(self.count);
        self.count = self.count.wrapping_add(1);
        ret
    }
}

/// A generator that starts at zero gives the numbers 0 to 0xFF in turn, over and over:
/// the number at place `n` is `n` modulo 0x100.
/// `numbers` are what successive calls of `SequenceGenerator::next` return.
pub proof fn law_numbers_count_up_and_wrap(numbers: Seq<u8>, n: nat)
    requires
        n < numbers.len(),
        numbers[0] == 0,
        forall|i: int, j: int|
            #![trigger numbers[i], numbers[j]]
            0 <= i < numbers.len() - 1 && j == i + 1 ==> numbers[j] == following(numbers[i]),
    ensures
        numbers[n as int] == n % 0x100,
        numbers[n as int] == nth_following(0, n),
    decreases n,
{
    if n > 0 {
        law_numbers_count_up_and_wrap(numbers, (n - 1) as nat);
        assert(numbers[n as int] == following(numbers[n - 1]));
    }
}

/// Fewer than 0x100 messages apart, two numbers differ.
pub proof fn law_numbers_repeat_only_after_wrapping(number: u8, i: nat, j: nat)
    requires
        i < j < i + 0x100,
    ensures
        nth_following(number, i) != nth_following(number, j),
        nth_following(number, i) == nth_following(number, i + 0x100),
{
}

} // verus!
