//! Frames on the wire.

use crate::errors::ErrorKind;
use crate::message::{
    announced_size, checksum, checksum_position, frame, law_decode_gives_back_what_was_framed,
    Message, MessageBuffer,
};
use vstd::prelude::*;

verus! {

/// All bytes, XORed one after the other.
pub open spec fn xor_all(bytes: Seq<u8>) -> u8 {
    bytes.fold_left(0u8, |sum: u8, byte: u8| sum ^ byte)
}

/// The checksum is the XOR of all bytes.
pub proof fn law_checksum_is_the_xor_of_all_bytes(bytes: Seq<u8>)
    ensures
        checksum(bytes) == xor_all(bytes),
    decreases bytes.len(),
{
    if bytes.len() > 0 {
        law_checksum_is_the_xor_of_all_bytes(bytes.drop_last());
    }
}

/// `Message::calc_checksum` gives the XOR of all bytes, for any bytes but none.
pub proof fn law_calc_checksum_xors_all_bytes(bytes: &[u8], result: u8)
    ensures
        bytes@.len() > 0 ==> call_requires(Message::calc_checksum, (bytes,)),
        call_ensures(Message::calc_checksum, (bytes,), result) ==> result == xor_all(bytes@),
{
    law_checksum_is_the_xor_of_all_bytes(bytes@);
}

/// The checksum of two runs of bytes, one behind the other, is the XOR of their checksums.
pub proof fn law_checksums_of_parts_combine(first: Seq<u8>, second: Seq<u8>)
    ensures
        checksum(first + second) == checksum(first) ^ checksum(second),
    decreases second.len(),
{
    let a = checksum(first);
    if second.len() == 0 {
        assert(first + second == first);
        assert(a ^ 0 == a) by (bit_vector);
    } else {
        law_checksums_of_parts_combine(first, second.drop_last());
        assert((first + second).drop_last() == first + second.drop_last());
        let b = checksum(second.drop_last());
        let c = second.last();
        assert((a ^ b) ^ c == a ^ (b ^ c)) by (bit_vector);
    }
}

/// `Message::new` keeps the number and the body, and states the body's length, modulo
/// 0x1_0000.
pub proof fn law_new_message_states_its_length(seq: u8, body: Vec<u8>, message: Message)
    requires
        call_ensures(Message::new, (seq, body), message),
    ensures
        call_requires(Message::new, (seq, body)),
        message.seq == seq,
        message.body@ == body@,
        (body@.len() - message.len) % 0x1_0000 == 0,
        body@.len() < 0x1_0000 ==> message.len == body@.len(),
{
}

/// The bytes of any message: 1B, its number, its length with the more significant byte first,
/// 0E, its body, and a last byte that makes the XOR of all of them zero.
pub proof fn law_bytes_of_a_message(message: Message, bytes: Vec<u8>)
    requires
        call_ensures(<Vec<u8> as From<Message>>::from, (message,), bytes),
    ensures
        bytes@.len() == 6 + message.body@.len(),
        bytes@[0] == 0x1B,
        bytes@[1] == message.seq,
        bytes@[2] * 0x100 + bytes@[3] == message.len,
        bytes@[4] == 0x0E,
        bytes@.skip(5).drop_last() == message.body@,
        xor_all(bytes@) == 0,
{
    let covered = bytes@.drop_last();
    let crc = checksum(covered);
    law_checksum_is_the_xor_of_all_bytes(bytes@);
    assert(covered == crate::message::header(message@) + message.body@);
    assert(bytes@.last() == crc);
    assert(crc ^ crc == 0) by (bit_vector);
}

/// Frames tell messages apart: two messages with a frame in common have the same number, length
/// and body.
pub proof fn law_frames_tell_messages_apart(first: Message, second: Message, bytes: Vec<u8>)
    requires
        call_ensures(<Vec<u8> as From<Message>>::from, (first,), bytes),
        call_ensures(<Vec<u8> as From<Message>>::from, (second,), bytes),
    ensures
        first.seq == second.seq,
        first.len == second.len,
        first.body@ == second.body@,
{
    law_bytes_of_a_message(first, bytes);
    law_bytes_of_a_message(second, bytes);
}

/// How many bytes follow a header, for any header: one more than bytes 2 and 3 state.
pub proof fn law_bytes_behind_a_header(header: &[u8], size: usize)
    ensures
        header@.len() >= 5 ==> call_requires(Message::remaining_size, (header,)),
        call_ensures(Message::remaining_size, (header,), size) ==> size == header@[2] * 0x100
            + header@[3] + 1,
{
}

/// Any buffer whose stated length leaves room for the checksum can be decoded. It is a message
/// exactly if the XOR of all bytes, up to and with the checksum, is zero; else that is the
/// error. Number, length and body are those in the buffer, whatever stands in bytes 0 and 4 and
/// behind the checksum.
pub proof fn law_decoding_goes_by_the_xor_of_all_bytes(
    buffer: MessageBuffer,
    result: Result<Message, ErrorKind>,
)
    ensures
        buffer@[2] * 0x100 + buffer@[3] <= 275 ==> call_requires(Message::try_from, (buffer,)),
        buffer@[2] * 0x100 + buffer@[3] <= 275 && call_ensures(
            Message::try_from,
            (buffer,),
            result,
        ) ==> {
            let size = buffer@[2] * 0x100 + buffer@[3];
            &&& result is Ok <==> xor_all(buffer@.take(6 + size)) == 0
            &&& result matches Err(error) ==> error == ErrorKind::ChecksumError
            &&& result matches Ok(message) ==> {
                &&& message.seq == buffer@[1]
                &&& message.len == size
                &&& message.body@ == buffer@.subrange(5, 5 + size)
            }
        },
{
    let size = buffer@[2] * 0x100 + buffer@[3];
    if size <= 275 {
        let whole = buffer@.take(6 + size);
        let covered = buffer@.subrange(0, 5 + size);
        law_checksum_is_the_xor_of_all_bytes(whole);
        assert(announced_size(buffer@) == size);
        assert(checksum_position(buffer@) == 5 + size);
        assert(whole.drop_last() == covered);
        assert(whole.last() == buffer@[5 + size]);
        let crc = checksum(covered);
        let found = buffer@[5 + size];
        assert(crc ^ found == 0 <==> crc == found) by (bit_vector);
    }
}

/// A message of up to 275 bytes survives the wire: its bytes, at the start of any buffer,
/// decode to a message with the same number, length and body; and the header alone tells how
/// many of the bytes are left.
pub proof fn law_messages_survive_the_wire(
    message: Message,
    bytes: Vec<u8>,
    header: &[u8],
    left: usize,
    buffer: MessageBuffer,
    result: Result<Message, ErrorKind>,
)
    requires
        message.body@.len() == message.len <= 275,
        call_ensures(<Vec<u8> as From<Message>>::from, (message,), bytes),
        header@ == bytes@.take(5),
        call_ensures(Message::remaining_size, (header,), left),
        bytes@.is_prefix_of(buffer@),
        call_ensures(Message::try_from, (buffer,), result),
    ensures
        5 + left == bytes@.len(),
        call_requires(Message::try_from, (buffer,)),
        result matches Ok(read) && {
            &&& read.seq == message.seq
            &&& read.len == message.len
            &&& read.body@ == message.body@
        },
{
    law_bytes_of_a_message(message, bytes);
    law_bytes_behind_a_header(header, left);
    law_decode_gives_back_what_was_framed(message@, buffer@);
    assert(frame(message@) == bytes@);
}

} // verus!
