//! What is read of a chip is what the chip holds.

use crate::avr::{AVRFuse, Signature};
use crate::dialogue::{Dialogue, DialogueView};
use crate::isp::IspMode;
use crate::laws::answers::law_kept_answers_are_right;
use crate::laws::requests::{
    law_asking_for_the_fuses, law_asking_for_the_lock_byte, law_asking_for_the_signature,
};
use crate::message::Message;
use vstd::prelude::*;

verus! {

/// The bytes of a chip that its serial programming instructions read.
pub struct Chip {
    pub low_fuse: u8,
    pub high_fuse: u8,
    pub extended_fuse: u8,
    pub lock: u8,
    pub signature: (u8, u8, u8),
}

/// The byte that command `cmd` with an instruction of four bytes reads of a chip.
pub open spec fn byte_of_chip(chip: Chip, cmd: u8, instruction: Seq<u8>) -> u8 {
    if cmd == 0x18 && instruction == seq![0x50u8, 0x00, 0x00, 0x00] {
        chip.low_fuse
    } else if cmd == 0x18 && instruction == seq![0x58u8, 0x08, 0x00, 0x00] {
        chip.high_fuse
    } else if cmd == 0x18 && instruction == seq![0x50u8, 0x08, 0x00, 0x00] {
        chip.extended_fuse
    } else if cmd == 0x1A && instruction == seq![0x58u8, 0x00, 0x00, 0x00] {
        chip.lock
    } else if cmd == 0x1B && instruction == seq![0x30u8, 0x00, 0x00, 0x00] {
        chip.signature.0
    } else if cmd == 0x1B && instruction == seq![0x30u8, 0x00, 0x01, 0x00] {
        chip.signature.1
    } else if cmd == 0x1B && instruction == seq![0x30u8, 0x00, 0x02, 0x00] {
        chip.signature.2
    } else {
        arbitrary()
    }
}

/// The programmer answers from `chip`: where it is told to take the byte at `poll_index` of what
/// the chip gives back, the answer's third byte is the one that the instruction reads.
pub open spec fn answered_by_chip(dialogue: DialogueView, chip: Chip, poll_index: u8) -> bool {
    forall|k: int|
        #![trigger dialogue.answers[k]]
        0 <= k < dialogue.answers.len() && dialogue.requests[k].body.len() == 5
            && dialogue.requests[k].body[0] == poll_index ==> dialogue.answers[k].body[2]
            == byte_of_chip(chip, dialogue.requests[k].cmd, dialogue.requests[k].body.skip(1))
}

/// `answers` are those of a dialogue over the requests of `asked` in which all of them were
/// answered.
pub open spec fn all_answered(
    asked: Dialogue,
    dialogue: DialogueView,
    answers: Seq<Message>,
) -> bool {
    &&& dialogue.well_formed()
    &&& dialogue.requests == asked@.requests
    &&& dialogue.answers.len() == dialogue.requests.len() == answers.len()
    &&& forall|k: int|
        #![trigger answers[k]]
        0 <= k < answers.len() ==> answers[k].body@ == dialogue.answers[k].body
}

/// `lock_byte` takes any answer of at least three bytes, and gives the third.
pub proof fn law_lock_byte_is_the_third_byte(answer: &Message, byte: u8)
    ensures
        answer.body@.len() >= 3 ==> call_requires(IspMode::lock_byte, (answer,)),
        call_ensures(IspMode::lock_byte, (answer,), byte) ==> byte == answer.body@[2],
{
}

/// `fuses` takes any three answers of at least three bytes, and gives the third byte of each: as
/// the low, the high and the extended fuse.
pub proof fn law_fuses_are_the_third_bytes(answers: &[Message], fuses: AVRFuse)
    ensures
        answers@.len() == 3 && (forall|i: int|
            0 <= i < 3 ==> (#[trigger] answers@[i]).body@.len() >= 3) ==> call_requires(
            IspMode::fuses,
            (answers,),
        ),
        call_ensures(IspMode::fuses, (answers,), fuses) ==> {
            &&& fuses.low == answers@[0].body@[2]
            &&& fuses.high == answers@[1].body@[2]
            &&& fuses.extended == answers@[2].body@[2]
        },
{
}

/// `mcu_signature` takes any three answers of at least three bytes, and gives the third byte of
/// each, in order.
pub proof fn law_signature_is_the_third_bytes(answers: &[Message], signature: Signature)
    ensures
        answers@.len() == 3 && (forall|i: int|
            0 <= i < 3 ==> (#[trigger] answers@[i]).body@.len() >= 3) ==> call_requires(
            IspMode::mcu_signature,
            (answers,),
        ),
        call_ensures(IspMode::mcu_signature, (answers,), signature) ==> {
            &&& signature.bytes.0 == answers@[0].body@[2]
            &&& signature.bytes.1 == answers@[1].body@[2]
            &&& signature.bytes.2 == answers@[2].body@[2]
        },
{
}

/// The lock byte that is read is the chip's.
pub proof fn law_lock_byte_is_the_chips(
    mode: &IspMode,
    asked: Dialogue,
    dialogue: DialogueView,
    answers: &[Message],
    chip: Chip,
    byte: u8,
)
    requires
        call_ensures(IspMode::get_lock_byte, (mode,), asked),
        all_answered(asked, dialogue, answers@),
        answered_by_chip(dialogue, chip, mode.prog.specs.lock_poll_index),
        call_ensures(IspMode::lock_byte, (&answers@[0],), byte),
    ensures
        call_requires(IspMode::lock_byte, (&answers@[0],)),
        byte == chip.lock,
{
    law_asking_for_the_lock_byte(mode, asked);
    law_kept_answers_are_right(dialogue, 0);
    assert(answers@[0].body@ == dialogue.answers[0].body);
    assert(dialogue.requests[0].body.skip(1) == seq![0x58u8, 0x00, 0x00, 0x00]);
}

/// The fuses that are read are the chip's, each in its place.
pub proof fn law_fuses_are_the_chips(
    mode: &IspMode,
    asked: Dialogue,
    dialogue: DialogueView,
    answers: &[Message],
    chip: Chip,
    fuses: AVRFuse,
)
    requires
        call_ensures(IspMode::get_fuses, (mode,), asked),
        all_answered(asked, dialogue, answers@),
        answered_by_chip(dialogue, chip, mode.prog.specs.fuse_poll_index),
        call_ensures(IspMode::fuses, (answers,), fuses),
    ensures
        call_requires(IspMode::fuses, (answers,)),
        fuses.low == chip.low_fuse,
        fuses.high == chip.high_fuse,
        fuses.extended == chip.extended_fuse,
{
    law_asking_for_the_fuses(mode, asked);
    assert forall|i: int| 0 <= i < 3 implies (#[trigger] answers@[i]).body@.len() > 2 by {
        law_kept_answers_are_right(dialogue, i);
    }
    assert(answers@[0].body@ == dialogue.answers[0].body);
    assert(answers@[1].body@ == dialogue.answers[1].body);
    assert(answers@[2].body@ == dialogue.answers[2].body);
    assert(dialogue.requests[0].body.skip(1) == seq![0x50u8, 0x00, 0x00, 0x00]);
    assert(dialogue.requests[1].body.skip(1) == seq![0x58u8, 0x08, 0x00, 0x00]);
    assert(dialogue.requests[2].body.skip(1) == seq![0x50u8, 0x08, 0x00, 0x00]);
    assert(dialogue.requests[1].body.skip(1)[0] == 0x58);
    assert(dialogue.requests[1].body.skip(1) != seq![0x50u8, 0x00, 0x00, 0x00]);
    assert(dialogue.requests[2].body.skip(1)[0] == 0x50);
    assert(seq![0x58u8, 0x08, 0x00, 0x00][0] == 0x58);
    assert(dialogue.requests[2].body.skip(1)[1] == 0x08);
    assert(seq![0x50u8, 0x00, 0x00, 0x00][1] == 0x00);
}

/// The signature that is read is the chip's, in order.
pub proof fn law_signature_is_the_chips(
    mode: &IspMode,
    asked: Dialogue,
    dialogue: DialogueView,
    answers: &[Message],
    chip: Chip,
    signature: Signature,
)
    requires
        call_ensures(IspMode::get_mcu_signature, (mode,), asked),
        all_answered(asked, dialogue, answers@),
        answered_by_chip(dialogue, chip, mode.prog.specs.signature_poll_index),
        call_ensures(IspMode::mcu_signature, (answers,), signature),
    ensures
        call_requires(IspMode::mcu_signature, (answers,)),
        signature.bytes == chip.signature,
{
    law_asking_for_the_signature(mode, asked);
    assert forall|i: int| 0 <= i < 3 implies (#[trigger] answers@[i]).body@.len() > 2 by {
        law_kept_answers_are_right(dialogue, i);
    }
    assert(answers@[0].body@ == dialogue.answers[0].body);
    assert(answers@[1].body@ == dialogue.answers[1].body);
    assert(answers@[2].body@ == dialogue.answers[2].body);
    assert(dialogue.requests[0].body.skip(1) == seq![0x30u8, 0x00, 0x00, 0x00]);
    assert(dialogue.requests[1].body.skip(1) == seq![0x30u8, 0x00, 0x01, 0x00]);
    assert(dialogue.requests[2].body.skip(1) == seq![0x30u8, 0x00, 0x02, 0x00]);
    assert(dialogue.requests[1].body.skip(1)[2] == 0x01);
    assert(seq![0x30u8, 0x00, 0x00, 0x00][2] == 0x00);
    assert(dialogue.requests[2].body.skip(1)[2] == 0x02);
    assert(seq![0x30u8, 0x00, 0x01, 0x00][2] == 0x01);
}

} // verus!
