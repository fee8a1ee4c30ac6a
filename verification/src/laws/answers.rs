//! Messages that are sent, and how their answers are judged.

use crate::dialogue::{
    conversation, judged, law_first_bad_answer_ends_a_dialogue,
    law_good_answers_finish_a_dialogue, viewed_messages, viewed_requests, Dialogue, DialogueView,
    Request,
};
use crate::errors::ErrorKind;
use crate::isp::IspMode;
use crate::message::{Message, MessageView};
use crate::programmer::STK500v2;
use crate::sequence::{following, nth_following, SequenceGenerator};
use vstd::prelude::*;
use vstd::utf8::{decode_utf8_encode_utf8, encode_utf8, valid_utf8};

verus! {

/// An answer carries number `seq`, command `cmd` and the status that all went well, and at
/// least `data_size` bytes behind them.
pub open spec fn right_answer(seq: u8, cmd: u8, data_size: int, answer: MessageView) -> bool {
    &&& answer.seq == seq
    &&& answer.body.len() >= 2 + data_size
    &&& answer.body[0] == cmd
    &&& answer.body[1] == 0x00
}

/// A new generator starts at zero.
pub proof fn law_new_generator_starts_at_zero(generator: SequenceGenerator)
    requires
        call_ensures(SequenceGenerator::new, (), generator),
    ensures
        call_requires(SequenceGenerator::new, ()),
        generator.count == 0,
{
}

/// A generator gives the number it stands at, and goes on to the next one, or from 0xFF to
/// zero.
pub proof fn law_generator_goes_on_by_one(generator: &mut SequenceGenerator, number: Option<u8>)
    requires
        call_ensures(SequenceGenerator::next, (generator,), number),
    ensures
        call_requires(SequenceGenerator::next, (generator,)),
        number == Some(old(generator).count),
        final(generator).count == if old(generator).count == 0xFF {
            0
        } else {
            old(generator).count + 1
        },
{
}

/// The number that comes `n + 1` numbers later follows the one that comes `n` numbers later.
pub proof fn law_numbers_follow_each_other(number: u8, n: nat)
    ensures
        nth_following(number, 0) == number,
        nth_following(number, n + 1) == following(nth_following(number, n)),
        (nth_following(number, n) - number - n) % 0x100 == 0,
{
}

/// The message for a command has the next sequence number; its body is the command and then
/// what was given. The next message gets the number after that, and what is known of the chip
/// stays.
pub proof fn law_command_message(
    programmer: &mut STK500v2,
    cmd: u8,
    body: Vec<u8>,
    message: Message,
)
    requires
        call_ensures(STK500v2::cmd, (programmer, cmd, body), message),
    ensures
        call_requires(STK500v2::cmd, (programmer, cmd, body)),
        message.seq == old(programmer).sequencer.count,
        message.body@.len() == 1 + body@.len(),
        message.body@[0] == cmd,
        message.body@.skip(1) == body@,
        (message.body@.len() - message.len) % 0x1_0000 == 0,
        final(programmer).sequencer.count == if old(programmer).sequencer.count == 0xFF {
            0
        } else {
            old(programmer).sequencer.count + 1
        },
        final(programmer).specs == old(programmer).specs,
{
    assert(message.body@ == message@.body);
}

/// An answer is judged by its number, then by its first byte, then by its second, and by
/// nothing else: if they are the number, the command and 00, it is kept as it came, however
/// long it is; else the first of them that is wrong is the error.
pub proof fn law_answers_are_judged_by_number_command_and_status(
    seq: u8,
    cmd: u8,
    answer: Message,
    result: Result<Message, ErrorKind>,
)
    ensures
        answer.body@.len() >= 2 || answer.seq != seq || (answer.body@.len() == 1
            && answer.body@[0] != cmd) ==> call_requires(
            STK500v2::check_answer,
            (seq, cmd, answer),
        ),
        call_ensures(STK500v2::check_answer, (seq, cmd, answer), result) ==> {
            &&& right_answer(seq, cmd, 0, answer@) ==> result is Ok
            &&& result matches Ok(kept) ==> {
                &&& kept.seq == answer.seq == seq
                &&& kept.len == answer.len
                &&& kept.body@ == answer.body@
                &&& answer.body@[0] == cmd
                &&& answer.body@[1] == 0x00
            }
            &&& result == Err::<Message, ErrorKind>(ErrorKind::SequenceError) <==> answer.seq
                != seq
            &&& result == Err::<Message, ErrorKind>(ErrorKind::AnswerIdError) <==> answer.seq
                == seq && answer.body@[0] != cmd
            &&& result == Err::<Message, ErrorKind>(ErrorKind::StatusError) <==> answer.seq
                == seq && answer.body@[0] == cmd && answer.body@[1] != 0x00
        },
{
    assert(answer.body@ == answer@.body);
    if let Ok(kept) = result {
        assert(kept.body@ == kept@.body);
    }
}

/// A new dialogue has the requests that it was made of, in order, and nothing was sent.
pub proof fn law_new_dialogue(requests: Vec<Request>, dialogue: Dialogue)
    requires
        call_ensures(Dialogue::new, (requests,), dialogue),
    ensures
        call_requires(Dialogue::new, (requests,)),
        dialogue@.well_formed(),
        dialogue@.requests.len() == requests@.len(),
        forall|i: int|
            #![trigger requests@[i]]
            0 <= i < requests@.len() ==> {
                &&& dialogue@.requests[i].cmd == requests@[i].cmd
                &&& dialogue@.requests[i].body == requests@[i].body@
                &&& dialogue@.requests[i].data_size == requests@[i].data_size
            },
        dialogue@.answers.len() == 0,
        dialogue@.pending is None,
        dialogue@.error is None,
{
    assert forall|i: int| #![trigger requests@[i]] 0 <= i < requests@.len() implies {
        &&& dialogue@.requests[i].cmd == requests@[i].cmd
        &&& dialogue@.requests[i].body == requests@[i].body@
        &&& dialogue@.requests[i].data_size == requests@[i].data_size
    } by {
        assert(viewed_requests(requests@)[i] == requests@[i]@);
    }
}

/// A dialogue over a single request has that one.
pub proof fn law_single_dialogue(request: Request, dialogue: Dialogue)
    requires
        call_ensures(Dialogue::single, (request,), dialogue),
    ensures
        call_requires(Dialogue::single, (request,)),
        dialogue@.well_formed(),
        dialogue@.requests.len() == 1,
        dialogue@.requests[0].cmd == request.cmd,
        dialogue@.requests[0].body == request.body@,
        dialogue@.requests[0].data_size == request.data_size,
        dialogue@.answers.len() == 0,
        dialogue@.pending is None,
        dialogue@.error is None,
{
    assert(dialogue@.requests == seq![request@]);
}

/// Every answer that a dialogue has kept is the right one for its request, but for the number,
/// which was looked at when it came.
pub proof fn law_kept_answers_are_right(dialogue: DialogueView, i: int)
    requires
        dialogue.well_formed(),
        0 <= i < dialogue.answers.len(),
    ensures
        i < dialogue.requests.len(),
        right_answer(
            dialogue.answers[i].seq,
            dialogue.requests[i].cmd,
            dialogue.requests[i].data_size as int,
            dialogue.answers[i],
        ),
{
    assert(crate::dialogue::answers(dialogue.requests[i], dialogue.answers[i]));
}

/// As long as nothing went wrong and a request is left, the first one that was not answered is
/// sent: its command, then its body, under the programmer's next sequence number. Nothing else
/// of the dialogue or the programmer changes, and without such a request nothing at all.
pub proof fn law_next_request_is_sent(
    dialogue: &mut Dialogue,
    programmer: &mut STK500v2,
    message: Option<Message>,
)
    requires
        old(dialogue)@.well_formed(),
        call_ensures(Dialogue::next, (dialogue, programmer), message),
    ensures
        old(dialogue)@.pending is None ==> call_requires(Dialogue::next, (dialogue, programmer)),
        message is Some <==> old(dialogue)@.error is None && old(dialogue)@.answers.len() < old(
            dialogue,
        )@.requests.len(),
        message is None ==> final(dialogue)@ == old(dialogue)@ && *final(programmer) == *old(
            programmer,
        ),
        message matches Some(sent) ==> {
            let request = old(dialogue)@.requests[old(dialogue)@.answers.len() as int];
            let count = old(programmer).sequencer.count;
            &&& sent.seq == count
            &&& sent.body@.len() == 1 + request.body.len()
            &&& sent.body@[0] == request.cmd
            &&& sent.body@.skip(1) == request.body
            &&& (sent.body@.len() - sent.len) % 0x1_0000 == 0
            &&& final(dialogue)@.requests == old(dialogue)@.requests
            &&& final(dialogue)@.answers == old(dialogue)@.answers
            &&& final(dialogue)@.pending == Some(count)
            &&& final(dialogue)@.error is None
            &&& final(programmer).sequencer.count == if count == 0xFF {
                0
            } else {
                count + 1
            }
            &&& final(programmer).specs == old(programmer).specs
        },
        final(dialogue)@.well_formed(),
{
    if let Some(sent) = message {
        assert(sent.body@ == sent@.body);
    }
}

/// An answer can be given to a waiting message unless a byte is missing that has to be looked
/// at: the command if the number is right, then the status if the command is right, then the
/// data if the status is 00.
pub proof fn law_answers_that_can_be_received(dialogue: &Dialogue, answer: &Message, fits: bool)
    requires
        dialogue@.well_formed(),
        call_ensures(Dialogue::can_receive, (dialogue, answer), fits),
    ensures
        call_requires(Dialogue::can_receive, (dialogue, answer)),
        fits <==> dialogue@.can_receive(answer@),
        dialogue@.pending is None ==> !fits,
        dialogue@.pending matches Some(seq) ==> {
            let request = dialogue@.requests[dialogue@.answers.len() as int];
            let size = answer.body@.len();
            &&& answer.seq != seq ==> fits
            &&& answer.seq == seq && size == 0 ==> !fits
            &&& answer.seq == seq && size >= 1 && answer.body@[0] != request.cmd ==> fits
            &&& answer.seq == seq && size == 1 && answer.body@[0] == request.cmd ==> !fits
            &&& answer.seq == seq && size >= 2 && answer.body@[0] == request.cmd
                && answer.body@[1] != 0x00 ==> fits
            &&& answer.seq == seq && size >= 2 && answer.body@[0] == request.cmd
                && answer.body@[1] == 0x00 ==> fits == (size >= 2 + request.data_size)
        },
{
    assert(answer.body@ == answer@.body);
}

/// The right answer is kept behind those before it, and the dialogue goes on. Any other answer
/// is not kept and ends it, with the first thing that is wrong as the error: the number, the
/// command or the status.
pub proof fn law_answers_are_kept_or_end_the_dialogue(
    dialogue: &mut Dialogue,
    answer: Message,
    result: Result<(), ErrorKind>,
)
    requires
        old(dialogue)@.well_formed(),
        old(dialogue)@.pending is Some,
        call_ensures(Dialogue::receive, (dialogue, answer), result),
    ensures
        old(dialogue)@.can_receive(answer@) ==> call_requires(
            Dialogue::receive,
            (dialogue, answer),
        ),
        final(dialogue)@.well_formed(),
        final(dialogue)@.requests == old(dialogue)@.requests,
        final(dialogue)@.pending is None,
        ({
            let seq = old(dialogue)@.pending->Some_0;
            let request = old(dialogue)@.requests[old(dialogue)@.answers.len() as int];
            let wrong = if answer.seq != seq {
                Some(ErrorKind::SequenceError)
            } else if answer.body@[0] != request.cmd {
                Some(ErrorKind::AnswerIdError)
            } else if answer.body@[1] != 0x00 {
                Some(ErrorKind::StatusError)
            } else {
                None
            };
            &&& final(dialogue)@.error == wrong
            &&& wrong is None ==> {
                &&& result is Ok
                &&& final(dialogue)@.answers.len() == old(dialogue)@.answers.len() + 1
                &&& final(dialogue)@.answers.drop_last() == old(dialogue)@.answers
                &&& final(dialogue)@.answers.last().seq == answer.seq
                &&& final(dialogue)@.answers.last().len == answer.len
                &&& final(dialogue)@.answers.last().body == answer.body@
            }
            &&& wrong matches Some(error) ==> {
                &&& result == Err::<(), ErrorKind>(error)
                &&& final(dialogue)@.answers == old(dialogue)@.answers
            }
        }),
{
    assert(answer.body@ == answer@.body);
}

/// Any right answer can be received, however long it is.
pub proof fn law_right_answers_can_be_received(dialogue: DialogueView, answer: MessageView)
    requires
        dialogue.well_formed(),
        dialogue.pending is Some,
        right_answer(
            dialogue.pending->Some_0,
            dialogue.requests[dialogue.answers.len() as int].cmd,
            dialogue.requests[dialogue.answers.len() as int].data_size as int,
            answer,
        ) || answer.seq != dialogue.pending->Some_0,
    ensures
        dialogue.can_receive(answer),
{
}

/// The answers of a dialogue are those that were kept, as they came, in order.
pub proof fn law_answers_come_out_as_they_were_kept(dialogue: &Dialogue, answers: &[Message])
    requires
        call_ensures(Dialogue::answers, (dialogue,), answers),
    ensures
        dialogue@.well_formed() ==> call_requires(Dialogue::answers, (dialogue,)),
        answers@.len() == dialogue@.answers.len(),
        forall|i: int|
            #![trigger answers@[i]]
            0 <= i < answers@.len() ==> {
                &&& answers@[i].seq == dialogue@.answers[i].seq
                &&& answers@[i].len == dialogue@.answers[i].len
                &&& answers@[i].body@ == dialogue@.answers[i].body
            },
{
    assert forall|i: int| #![trigger answers@[i]] 0 <= i < answers@.len() implies {
        &&& answers@[i].seq == dialogue@.answers[i].seq
        &&& answers@[i].len == dialogue@.answers[i].len
        &&& answers@[i].body@ == dialogue@.answers[i].body
    } by {
        assert(viewed_messages(answers@)[i] == answers@[i]@);
    }
}

/// Right answers finish a dialogue: if one comes for each request that is left, with the numbers
/// from `count` on, all of them are kept in order, and one message was sent for each.
pub proof fn law_right_answers_finish_a_dialogue(
    dialogue: DialogueView,
    count: u8,
    replies: Seq<MessageView>,
)
    requires
        dialogue.well_formed(),
        dialogue.pending is None,
        dialogue.error is None,
        dialogue.answers.len() + replies.len() == dialogue.requests.len(),
        forall|i: int|
            #![trigger replies[i]]
            0 <= i < replies.len() ==> {
                let request = dialogue.requests[dialogue.answers.len() + i];
                right_answer(
                    ((count + i) % 0x100) as u8,
                    request.cmd,
                    request.data_size as int,
                    replies[i],
                )
            },
    ensures
        ({
            let (sent, end) = conversation(dialogue, count, replies);
            &&& sent.len() == replies.len()
            &&& end.requests == dialogue.requests
            &&& end.answers == dialogue.answers + replies
            &&& end.pending is None
            &&& end.error is None
        }),
{
    assert forall|i: int| 0 <= i < replies.len() implies (#[trigger] judged(
        dialogue,
        count,
        replies,
        i,
    )) is Ok by {
        let reply = replies[i];
    }
    law_good_answers_finish_a_dialogue(dialogue, count, replies);
}

/// The first wrong answer ends a dialogue: nothing is sent after it, the answers before it are
/// kept, and its number, command or status, whichever is wrong first, is the error.
pub proof fn law_wrong_answer_ends_a_dialogue(
    dialogue: DialogueView,
    count: u8,
    replies: Seq<MessageView>,
    wrong: int,
)
    requires
        dialogue.well_formed(),
        dialogue.pending is None,
        dialogue.error is None,
        0 <= wrong < replies.len(),
        dialogue.answers.len() + wrong < dialogue.requests.len(),
        forall|i: int|
            #![trigger replies[i]]
            0 <= i < wrong ==> {
                let request = dialogue.requests[dialogue.answers.len() + i];
                right_answer(
                    ((count + i) % 0x100) as u8,
                    request.cmd,
                    request.data_size as int,
                    replies[i],
                )
            },
        replies[wrong].seq != (count + wrong) % 0x100 || replies[wrong].body[0]
            != dialogue.requests[dialogue.answers.len() + wrong].cmd || replies[wrong].body[1]
            != 0x00,
    ensures
        ({
            let (sent, end) = conversation(dialogue, count, replies);
            let request = dialogue.requests[dialogue.answers.len() + wrong];
            &&& sent.len() == wrong + 1
            &&& end.answers == dialogue.answers + replies.take(wrong)
            &&& end.error == Some(
                if replies[wrong].seq != (count + wrong) % 0x100 {
                    ErrorKind::SequenceError
                } else if replies[wrong].body[0] != request.cmd {
                    ErrorKind::AnswerIdError
                } else {
                    ErrorKind::StatusError
                },
            )
        }),
{
    assert forall|i: int| 0 <= i < wrong implies (#[trigger] judged(
        dialogue,
        count,
        replies,
        i,
    )) is Ok by {
        let reply = replies[i];
    }
    law_first_bad_answer_ends_a_dialogue(dialogue, count, replies, wrong);
}

/// `param_set` takes any answer of at least two bytes. It says so exactly if they are 02 and
/// 00; else the first that is wrong is the error.
pub proof fn law_set_parameter_is_confirmed(answer: &Message, result: Result<(), ErrorKind>)
    ensures
        answer.body@.len() >= 2 ==> call_requires(STK500v2::param_set, (answer,)),
        call_ensures(STK500v2::param_set, (answer,), result) ==> {
            &&& result is Ok <==> answer.body@[0] == 0x02 && answer.body@[1] == 0x00
            &&& result == Err::<(), ErrorKind>(ErrorKind::AnswerIdError) <==> answer.body@[0]
                != 0x02
            &&& result == Err::<(), ErrorKind>(ErrorKind::StatusError) <==> answer.body@[0]
                == 0x02 && answer.body@[1] != 0x00
        },
{
    assert(answer.body@ == answer@.body);
}

/// `param_value` takes any answer of at least three bytes. If the first two are 03 and 00, it is
/// the third; else the first that is wrong is the error.
pub proof fn law_parameter_value_is_the_third_byte(answer: &Message, result: Result<u8, ErrorKind>)
    ensures
        answer.body@.len() >= 3 ==> call_requires(STK500v2::param_value, (answer,)),
        call_ensures(STK500v2::param_value, (answer,), result) ==> {
            &&& answer.body@[0] == 0x03 && answer.body@[1] == 0x00 ==> result == Ok::<
                u8,
                ErrorKind,
            >(answer.body@[2])
            &&& result == Err::<u8, ErrorKind>(ErrorKind::AnswerIdError) <==> answer.body@[0]
                != 0x03
            &&& result == Err::<u8, ErrorKind>(ErrorKind::StatusError) <==> answer.body@[0]
                == 0x03 && answer.body@[1] != 0x00
        },
{
    assert(answer.body@ == answer@.body);
}

/// `programmer_signature` takes any answer of at least three bytes. What follows them is the
/// name, if it is UTF-8: encoding the name gives these bytes back. Else that is the error.
pub proof fn law_programmer_name_follows_the_third_byte(
    answer: &Message,
    result: Result<String, ErrorKind>,
)
    ensures
        answer.body@.len() >= 3 ==> call_requires(STK500v2::programmer_signature, (answer,)),
        call_ensures(STK500v2::programmer_signature, (answer,), result) ==> {
            let bytes = answer.body@.skip(3);
            &&& result is Ok <==> valid_utf8(bytes)
            &&& result matches Ok(name) ==> encode_utf8(name@) == bytes
            &&& result matches Err(error) ==> error == ErrorKind::Utf8Error
        },
{
    if valid_utf8(answer.body@.skip(3)) {
        decode_utf8_encode_utf8(answer.body@.skip(3));
    }
}

/// `try_into` takes any two answers of at least two bytes each. It gives programming mode, with
/// the programmer as it was, exactly if they start with 02 00 and 10 00; else the first byte
/// that is wrong is the error.
pub proof fn law_programming_mode_is_confirmed(
    programmer: STK500v2,
    answers: &[Message],
    result: Result<IspMode, ErrorKind>,
)
    requires
        answers@.len() == 2,
    ensures
        answers@[0].body@.len() >= 2 && answers@[1].body@.len() >= 2 ==> call_requires(
            STK500v2::try_into,
            (programmer, answers),
        ),
        call_ensures(STK500v2::try_into, (programmer, answers), result) ==> {
            let first = answers@[0].body@;
            let second = answers@[1].body@;
            &&& result is Ok <==> first[0] == 0x02 && first[1] == 0x00 && second[0] == 0x10
                && second[1] == 0x00
            &&& result matches Ok(mode) ==> mode.prog == programmer
            &&& result matches Err(error) ==> error == if first[0] != 0x02 {
                ErrorKind::AnswerIdError
            } else if first[1] != 0x00 {
                ErrorKind::StatusError
            } else if second[0] != 0x10 {
                ErrorKind::AnswerIdError
            } else {
                ErrorKind::StatusError
            }
        },
{
    assert(answers@[0].body@ == answers@[0]@.body);
    assert(answers@[1].body@ == answers@[1]@.body);
}

} // verus!
