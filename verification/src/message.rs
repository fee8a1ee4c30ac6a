//! The frame in which commands and answers travel.

use crate::bytes::{be16, from_be16, lemma_be16_round_trip, to_be16};
use crate::errors::ErrorKind;
use crate::text::{append_decimal, decimal, hex_list, to_hex};
use vstd::prelude::*;
use vstd::slice::{slice_subrange, slice_to_vec};

verus! {

/// Message structure:
/// Message start
/// Sequence number (u8 incremented for each message sent, overflows after 0xff)
/// Body length (maximum of 275 bytes, in big endian order)
/// Token
/// Body as bytes
/// Calculated checksum
#[derive(Debug, PartialEq, Eq)]
pub struct Message {
    pub seq: u8,
    pub len: u16,
    pub body: Vec<u8>,
}

/// What a message says.
#[verifier::ext_equal]
pub struct MessageView {
    pub seq: u8,
    pub len: u16,
    pub body: Seq<u8>,
}

impl View for Message {
    type V = MessageView;

    open spec fn view(&self) -> MessageView {
        MessageView { seq: self.seq, len: self.len, body: self.body@ }
    }
}

/// Room for the largest message.
pub type MessageBuffer = [u8; Message::MAX_SIZE];

/// XOR of all bytes.
pub open spec fn checksum(bytes: Seq<u8>) -> u8
    decreases bytes.len(),
{
    if bytes.len() == 0 {
        0
    } else {
        checksum(bytes.drop_last()) ^ bytes.last()
    }
}

/// The bytes before the body.
pub open spec fn header(message: MessageView) -> Seq<u8> {
    seq![Message::MESSAGE_START, message.seq] + be16(message.len as int) + seq![Message::TOKEN]
}

/// A message as it travels: header, body, checksum over both.
pub open spec fn frame(message: MessageView) -> Seq<u8> {
    let covered = header(message) + message.body;
    covered.push(checksum(covered))
}

/// The size of the body that a header announces.
pub open spec fn announced_size(bytes: Seq<u8>) -> int {
    from_be16(
        bytes[Message::LEN_BYTE_0_POSITION as int],
        bytes[Message::LEN_BYTE_1_POSITION as int],
    )
}

/// Where the checksum stands in a buffer that starts with a message.
pub open spec fn checksum_position(bytes: Seq<u8>) -> int {
    Message::HEADER_SIZE + announced_size(bytes)
}

/// The message at the start of a buffer. What follows its checksum is left alone.
pub open spec fn decode(bytes: Seq<u8>) -> Result<MessageView, ErrorKind> {
    let end = checksum_position(bytes);
    if bytes[end] != checksum(bytes.subrange(0, end)) {
        Err(ErrorKind::ChecksumError)
    } else {
        Ok(
            MessageView {
                seq: bytes[Message::SEQ_POSITION as int],
                len: announced_size(bytes) as u16,
                body: bytes.subrange(Message::BODY_START_POSITION as int, end),
            },
        )
    }
}

/// What a message looks like in the log.
pub open spec fn log_text(message: MessageView) -> Seq<char> {
    "sequence_number="@ + decimal(message.seq as nat) + " body_length="@ + decimal(
        message.len as nat,
    ) + " body=["@ + hex_list(message.body) + "]"@
}

/// A result, with the message in it replaced by what it says.
pub open spec fn viewed(result: Result<Message, ErrorKind>) -> Result<MessageView, ErrorKind> {
    match result {
        Ok(message) => Ok(message@),
        Err(error) => Err(error),
    }
}

impl MessageView {
    /// The length field states the size of the body.
    pub open spec fn well_formed(self) -> bool {
        self.len == self.body.len()
    }
}

impl Message {
    pub const MESSAGE_START: u8 = 0x1B;

    pub const TOKEN: u8 = 0x0E;

    pub const HEADER_SIZE: usize = 5;

    pub const CHECKSUM_SIZE: usize = 1;

    pub const BODY_START_POSITION: usize = 5;

    pub const LEN_BYTE_0_POSITION: usize = 2;

    pub const LEN_BYTE_1_POSITION: usize = 3;

    pub const SEQ_POSITION: usize = 1;

    pub const MAX_BODY_SIZE: usize = 275;

    pub const MAX_SIZE: usize = Self::MAX_BODY_SIZE + Self::CHECKSUM_SIZE + Self::HEADER_SIZE;

    /// Calculate checksum (XOR of all bytes)
    pub fn calc_checksum(bytes: &[u8]) -> (result: u8)
        requires
            bytes@.len() > 0,
        ensures
            result == checksum(bytes@),
    {
        let mut result: u8 = bytes[0];
        let mut i: usize = 1;
        proof {
            let first = bytes@[0];
            assert(0u8 ^ first == first) by (bit_vector);
            assert(bytes@.take(1).drop_last() == Seq::<u8>::empty());
            reveal_with_fuel(checksum, 2);
        }
        while i < bytes.len()
            invariant
                1 <= i <= bytes@.len(),
                result == checksum(bytes@.take(i as int)),
            decreases bytes@.len() - i,
        {
            assert(bytes@.take(i + 1).drop_last() == bytes@.take(i as int));
            result = result ^ bytes[i];
            i = i + 1;
        }
        assert(bytes@.take(i as int) == bytes@);
        result
    }

    /// The message with that number and body. The length field holds 16 bits: from a
    /// larger body it keeps the low ones.
    pub fn new(seq: u8, body: Vec<u8>) -> (message: Self)
        ensures
            message.seq == seq,
            message.body == body,
            message.len == body@.len() % 0x1_0000,
            body@.len() < 0x1_0000 ==> message@.well_formed(),
    {
        Self { len: (body.len() % 0x1_0000) as u16, body, seq }
    }

    /// How many bytes follow a header: the body that it announces, and the checksum.
    pub fn remaining_size(header: &[u8]) -> (size: usize)
        requires
            header@.len() >= Self::HEADER_SIZE,
        ensures
            size == announced_size(header@) + Self::CHECKSUM_SIZE,
    {
        let high = header[Self::LEN_BYTE_0_POSITION];
        let low = header[Self::LEN_BYTE_1_POSITION];
        high as usize * 0x100 + low as usize + Self::CHECKSUM_SIZE
    }

    /// The message at the start of the buffer, or `ErrorKind::ChecksumError`.
    /// The announced body must fit in the buffer.
    pub fn try_from(buffer: MessageBuffer) -> (result: Result<Self, ErrorKind>)
        requires
            announced_size(buffer@) <= Self::MAX_BODY_SIZE,
        ensures
            viewed(result) == decode(buffer@),
            result matches Ok(message) ==> message@.well_formed(),
    {
        let bytes: &[u8] = buffer.as_slice();
        let body_size: usize = Self::remaining_size(bytes) - Self::CHECKSUM_SIZE;
        let end_index: usize = Self::HEADER_SIZE + body_size;
        let crc: u8 = bytes[end_index];
        if crc != Self::calc_checksum(slice_subrange(bytes, 0, end_index)) {
            Err(ErrorKind::ChecksumError)
        } else {
            Ok(
                Message {
                    len: body_size as u16,
                    body: slice_to_vec(
                        slice_subrange(bytes, Self::BODY_START_POSITION, end_index),
                    ),
                    seq: bytes[Self::SEQ_POSITION],
                },
            )
        }
    }

    /// The message for the log.
    pub fn to_string(&self) -> (text: String)
        ensures
            text@ == log_text(self@),
    {
        let mut text = String::new();
        text.append("sequence_number=");
        append_decimal(&mut text, self.seq as u16);
        text.append(" body_length=");
        append_decimal(&mut text, self.len);
        text.append(" body=[");
        text.append(to_hex(self.body.as_slice()).as_str());
        text.append("]");
        text
    }
}

/// The bytes to send for a message.
impl From<Message> for Vec<u8> {
    fn from(message: Message) -> (bytes: Vec<u8>)
        ensures
            bytes@ == frame(message@),
    {
        let len = to_be16(message.len as usize);
        let mut bytes: Vec<u8> = vec![
            Message::MESSAGE_START,
            message.seq,
            len[0],
            len[1],
            Message::TOKEN,
        ];
        assert(bytes@ == header(message@));
        let mut body = message.body;
        bytes.append(&mut body);
        let crc = Message::calc_checksum(bytes.as_slice());
        bytes.push(crc);
        bytes
    }
}

impl vstd::std_specs::convert::FromSpecImpl<Message> for Vec<u8> {
    open spec fn obeys_from_spec() -> bool {
        false
    }

    open spec fn from_spec(message: Message) -> Vec<u8> {
        arbitrary()
    }
}

/// One more byte is one more XOR.
proof fn lemma_checksum_push(bytes: Seq<u8>, byte: u8)
    ensures
        checksum(bytes.push(byte)) == checksum(bytes) ^ byte,
{
    assert(bytes.push(byte).drop_last() == bytes);
}

/// A byte that changes takes its old value out of the checksum and puts its new one in.
proof fn lemma_checksum_update(bytes: Seq<u8>, i: int, byte: u8)
    requires
        0 <= i < bytes.len(),
    ensures
        checksum(bytes.update(i, byte)) == checksum(bytes) ^ (bytes[i] ^ byte),
    decreases bytes.len(),
{
    let changed = bytes.update(i, byte);
    let rest = checksum(bytes.drop_last());
    let last = bytes.last();
    if i == bytes.len() - 1 {
        assert(changed.drop_last() == bytes.drop_last());
        assert(rest ^ byte == (rest ^ last) ^ (last ^ byte)) by (bit_vector);
    } else {
        lemma_checksum_update(bytes.drop_last(), i, byte);
        assert(changed.drop_last() == bytes.drop_last().update(i, byte));
        let was = bytes[i];
        assert((rest ^ (was ^ byte)) ^ last == (rest ^ last) ^ (was ^ byte)) by (bit_vector);
    }
}

/// Frames are six bytes longer than their body.
pub proof fn law_frame_size(message: MessageView)
    ensures
        frame(message).len() == Message::HEADER_SIZE + message.body.len() + Message::CHECKSUM_SIZE,
{
}

/// The XOR of all bytes of a frame, its checksum among them, is zero.
pub proof fn law_frame_checksum_is_zero(message: MessageView)
    ensures
        checksum(frame(message)) == 0,
{
    let covered = header(message) + message.body;
    let crc = checksum(covered);
    lemma_checksum_push(covered, crc);
    assert(crc ^ crc == 0) by (bit_vector);
}

/// What was written is what is read: a buffer that starts with the frame of a message
/// decodes to that message, whatever stands behind the frame.
pub proof fn law_decode_gives_back_what_was_framed(message: MessageView, buffer: Seq<u8>)
    requires
        message.well_formed(),
        frame(message).is_prefix_of(buffer),
    ensures
        announced_size(buffer) == message.body.len(),
        decode(buffer) == Ok::<MessageView, ErrorKind>(message),
{
    let framed = frame(message);
    let end = Message::HEADER_SIZE + message.body.len();
    lemma_be16_round_trip(message.len as int);
    assert forall|i: int| 0 <= i < framed.len() implies buffer[i] == framed[i] by {
        assert(buffer.subrange(0, framed.len() as int)[i] == framed[i]);
    }
    assert(buffer[1] == framed[1] && buffer[2] == framed[2] && buffer[3] == framed[3]);
    assert(buffer.subrange(0, end) == header(message) + message.body);
    assert(buffer.subrange(5, end) == message.body);
}

/// A message is read in two steps, its header and then as many bytes as
/// `Message::remaining_size` tells: together they are its frame.
pub proof fn law_header_tells_how_much_is_left(message: MessageView)
    requires
        message.well_formed(),
    ensures
        Message::HEADER_SIZE + announced_size(frame(message).take(Message::HEADER_SIZE as int))
            + Message::CHECKSUM_SIZE == frame(message).len(),
{
    lemma_be16_round_trip(message.len as int);
}

/// What decodes was framed so: the message that a buffer decodes to is well formed, and
/// from the sequence number to the end of the body the buffer holds what its frame holds,
/// but for the token, which is not looked at.
pub proof fn law_decoded_message_is_in_the_buffer(buffer: Seq<u8>, i: int)
    requires
        buffer.len() >= Message::HEADER_SIZE,
        decode(buffer) is Ok,
        checksum_position(buffer) < buffer.len(),
        0 < i < checksum_position(buffer),
        i != Message::HEADER_SIZE - 1,
    ensures
        decode(buffer)->Ok_0.well_formed(),
        frame(decode(buffer)->Ok_0)[i] == buffer[i],
{
    assert(from_be16(buffer[2], buffer[3]) < 0x1_0000);
}

/// No change of a single byte goes unnoticed, as long as it leaves the length alone:
/// if a buffer decodes, the same buffer with another byte in one place of the message,
/// checksum included, gives a checksum error.
pub proof fn law_single_byte_change_is_detected(buffer: Seq<u8>, i: int, byte: u8)
    requires
        buffer.len() >= Message::HEADER_SIZE,
        checksum_position(buffer) < buffer.len(),
        decode(buffer) is Ok,
        0 <= i <= checksum_position(buffer),
        i != Message::LEN_BYTE_0_POSITION,
        i != Message::LEN_BYTE_1_POSITION,
        byte != buffer[i],
    ensures
        decode(buffer.update(i, byte)) == Err::<MessageView, ErrorKind>(ErrorKind::ChecksumError),
{
    let end = checksum_position(buffer);
    let changed = buffer.update(i, byte);
    assert(checksum_position(changed) == end);
    if i == end {
        assert(changed.subrange(0, end) == buffer.subrange(0, end));
    } else {
        lemma_checksum_update(buffer.subrange(0, end), i, byte);
        assert(changed.subrange(0, end) == buffer.subrange(0, end).update(i, byte));
        let crc = buffer[end];
        let was = buffer[i];
        assert(was != byte ==> crc != crc ^ (was ^ byte)) by (bit_vector);
    }
}

} // verus!
