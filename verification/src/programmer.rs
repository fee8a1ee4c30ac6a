//! The programmer: commands that it takes outside of programming mode.

use crate::avr::{programming_enable_instruction, Specs};
use crate::command::Normal;
use crate::dialogue::{
    answers, carrier, check, long_enough, viewed_requests, Dialogue, DialogueView, Request,
    RequestView,
};
use crate::errors::ErrorKind;
use crate::isp::IspMode;
use crate::message::{viewed, Message, MessageView};
use crate::param::{Readable, Writable, RW};
use crate::port::{CharSize, FlowControl, LineSettings, Parity, StopBits};
use crate::sequence::{following, SequenceGenerator};
use crate::status::Status;
use vstd::prelude::*;
use vstd::slice::{slice_subrange, slice_to_vec};
use vstd::std_specs::convert::IntoSpec;
use vstd::utf8::{decode_utf8, valid_utf8};

verus! {

/// What the host keeps of a programmer that it talks to.
pub struct STK500v2 {
    pub sequencer: SequenceGenerator,
    pub specs: Specs,
}

/// The request that sets a parameter.
pub open spec fn set_request(param: u8, value: u8) -> RequestView {
    RequestView { cmd: Normal::SetParameter.code(), body: seq![param, value], data_size: 0 }
}

/// The request that asks for a parameter.
pub open spec fn get_request(param: u8) -> RequestView {
    RequestView { cmd: Normal::GetParameter.code(), body: seq![param], data_size: 1 }
}

/// The request that asks for the programmer's name. A byte stands before the name.
pub open spec fn sign_on_request() -> RequestView {
    RequestView { cmd: Normal::SignOn.code(), body: seq![], data_size: 1 }
}

/// The request that turns programming mode on: timing of the chip, and the instruction that
/// enables programming.
pub open spec fn enter_request(specs: Specs) -> RequestView {
    RequestView {
        cmd: Normal::EnterIspMode.code(),
        body: seq![
            specs.timeout,
            specs.stab_delay,
            specs.cmd_exe_delay,
            specs.synch_loops,
            specs.byte_delay,
            specs.pool_value,
            specs.pool_index,
            0xac,
            0x53,
            0x00,
            0x00,
        ],
        data_size: 0,
    }
}

/// The value of the parameter that tells how the chip is reset.
pub open spec fn polarity_value(specs: Specs) -> u8 {
    if specs.reset_polarity {
        1
    } else {
        0
    }
}

/// What has to be asked for, in order, before the chip can be programmed.
pub open spec fn enter_requests(specs: Specs) -> Seq<RequestView> {
    seq![set_request(RW::ResetPolarity.code(), polarity_value(specs)), enter_request(specs)]
}

/// Whether an answer is for command `cmd` and tells that all went well.
pub open spec fn confirmation(cmd: u8, answer: MessageView) -> Result<(), ErrorKind> {
    if answer.body[0] != cmd {
        Err(ErrorKind::AnswerIdError)
    } else if answer.body[1] != Status::CmdOk.code() {
        Err(ErrorKind::StatusError)
    } else {
        Ok(())
    }
}

#[verifier::external_type_specification]
#[verifier::external_body]
pub struct ExFromUtf8Error(std::string::FromUtf8Error);

/// `String::from_utf8` takes bytes that are UTF-8, and only those; the text holds the
/// characters that they encode.
pub assume_specification[ String::from_utf8 ](vec: Vec<u8>) -> (result: Result<
    String,
    std::string::FromUtf8Error,
>)
    ensures
        result is Ok <==> valid_utf8(vec@),
        result matches Ok(text) ==> text@ == decode_utf8(vec@),
;

impl STK500v2 {
    /// A programmer that no message was sent to yet, and how the line to it has to be set up.
    pub fn open(specs: Specs) -> (opened: (LineSettings, STK500v2))
        ensures
            opened.0 == (LineSettings {
                baud_rate: 115200,
                parity: Parity::ParityNone,
                stop_bits: StopBits::Stop1,
                char_size: CharSize::Bits8,
                flow_control: FlowControl::FlowNone,
                timeout_secs: 1,
            }),
            opened.1.sequencer.count == 0,
            opened.1.specs == specs,
    {
        let settings = LineSettings {
            baud_rate: 115200,
            parity: Parity::ParityNone,
            stop_bits: StopBits::Stop1,
            char_size: CharSize::Bits8,
            // Must be set to none.
            // Otherwise programmer may hang at random command.
            flow_control: FlowControl::FlowNone,
            timeout_secs: 1,
        };
        (settings, STK500v2 { sequencer: SequenceGenerator::new(), specs })
    }

    /// The message for a command: it gets the next sequence number, and the body is
    /// prepended with the command.
    pub fn cmd(&mut self, cmd: u8, body: Vec<u8>) -> (message: Message)
        ensures
            message@ == carrier(old(self).sequencer.count, cmd, body@),
            final(self).sequencer.count == following(old(self).sequencer.count),
            final(self).specs == old(self).specs,
    {
        let seq: u8 = self.sequencer.next().unwrap();
        let mut body = body;
        body.insert(0, cmd);
        Message::new(seq, body)
    }

    /// The answer to message `seq` with command `cmd`, or what is wrong with it.
    pub fn check_answer(seq: u8, cmd: u8, answer: Message) -> (result: Result<Message, ErrorKind>)
        requires
            long_enough(seq, cmd, 0, answer@),
        ensures
            viewed(result) == check(seq, cmd, answer@),
    {
        if seq != answer.seq {
            return Err(ErrorKind::SequenceError);
        }
        if cmd != answer.body[0] {
            return Err(ErrorKind::AnswerIdError);
        }
        if answer.body[1] != u8::from(Status::CmdOk) {
            return Err(ErrorKind::StatusError);
        }
        Ok(answer)
    }

    /// Asks to set a parameter. `param_set` reads the answer.
    pub fn set_param<T>(&self, param: T, value: u8) -> (dialogue: Dialogue) where
        T: Writable + Into<u8>,

        ensures
            dialogue@.well_formed(),
            exists|code: u8|
                #![trigger set_request(code, value)]
                {
                    &&& call_ensures(<T as Into<u8>>::into, (param,), code)
                    &&& T::obeys_into_spec() ==> code == param.into_spec()
                    &&& dialogue@.fresh(seq![set_request(code, value)])
                },
    {
        let code: u8 = param.into();
        let request = Request {
            cmd: Normal::SetParameter.into(),
            body: vec![code, value],
            data_size: 0,
        };
        assert(request@ == set_request(code, value));
        Dialogue::single(request)
    }

    /// Tells whether an answer confirms that a parameter was set.
    pub fn param_set(answer: &Message) -> (result: Result<(), ErrorKind>)
        requires
            long_enough(answer.seq, Normal::SetParameter.code(), 0, answer@),
        ensures
            result == confirmation(Normal::SetParameter.code(), answer@),
    {
        Self::confirm(Normal::SetParameter.into(), answer)
    }

    /// Tells whether an answer is for command `cmd`, and all went well.
    fn confirm(cmd: u8, answer: &Message) -> (result: Result<(), ErrorKind>)
        requires
            long_enough(answer.seq, cmd, 0, answer@),
        ensures
            result == confirmation(cmd, answer@),
    {
        if answer.body[0] != cmd {
            return Err(ErrorKind::AnswerIdError);
        }
        if answer.body[1] != u8::from(Status::CmdOk) {
            return Err(ErrorKind::StatusError);
        }
        Ok(())
    }

    /// Asks for a parameter. `param_value` reads the answer.
    pub fn get_param<T>(&self, param: T) -> (dialogue: Dialogue) where T: Readable + Into<u8>
        ensures
            dialogue@.well_formed(),
            exists|code: u8|
                #![trigger get_request(code)]
                {
                    &&& call_ensures(<T as Into<u8>>::into, (param,), code)
                    &&& T::obeys_into_spec() ==> code == param.into_spec()
                    &&& dialogue@.fresh(seq![get_request(code)])
                },
    {
        let code: u8 = param.into();
        let request = Request { cmd: Normal::GetParameter.into(), body: vec![code], data_size: 1 };
        assert(request@ == get_request(code));
        Dialogue::single(request)
    }

    /// The value in the answer to the question for a parameter.
    pub fn param_value(answer: &Message) -> (result: Result<u8, ErrorKind>)
        requires
            long_enough(answer.seq, Normal::GetParameter.code(), 1, answer@),
        ensures
            match confirmation(Normal::GetParameter.code(), answer@) {
                Ok(()) => result == Ok::<u8, ErrorKind>(answer.body@[2]),
                Err(error) => result == Err::<u8, ErrorKind>(error),
            },
    {
        match Self::confirm(Normal::GetParameter.into(), answer) {
            Ok(()) => Ok(answer.body[2]),
            Err(error) => Err(error),
        }
    }

    /// Asks for the programmer's name. `programmer_signature` reads the answer.
    pub fn read_programmer_signature(&self) -> (dialogue: Dialogue)
        ensures
            dialogue@.fresh(seq![sign_on_request()]),
            dialogue@.well_formed(),
    {
        let request = Request { cmd: Normal::SignOn.into(), body: vec![], data_size: 1 };
        assert(request@ == sign_on_request());
        Dialogue::single(request)
    }

    /// The programmer's name, in the answer to the question for it.
    pub fn programmer_signature(answer: &Message) -> (result: Result<String, ErrorKind>)
        requires
            answer.body@.len() >= 3,
        ensures
            match result {
                Ok(name) => valid_utf8(answer.body@.skip(3)) && name@ == decode_utf8(
                    answer.body@.skip(3),
                ),
                Err(error) => !valid_utf8(answer.body@.skip(3)) && error == ErrorKind::Utf8Error,
            },
    {
        let name = slice_to_vec(slice_subrange(answer.body.as_slice(), 3, answer.body.len()));
        match String::from_utf8(name) {
            Ok(name) => Ok(name),
            Err(_) => Err(ErrorKind::Utf8Error),
        }
    }

    /// Asks for programming mode. `try_into` reads the answers.
    pub fn enter_isp_mode(&self) -> (dialogue: Dialogue)
        ensures
            dialogue@.fresh(enter_requests(self.specs)),
            dialogue@.well_formed(),
    {
        let enable = programming_enable_instruction();
        let bytes = vec![
            self.specs.timeout,
            self.specs.stab_delay,
            self.specs.cmd_exe_delay,
            self.specs.synch_loops,
            self.specs.byte_delay,
            self.specs.pool_value,
            self.specs.pool_index,
            enable.0,
            enable.1,
            enable.2,
            enable.3,
        ];
        let polarity: u8 = if self.specs.reset_polarity {
            1
        } else {
            0
        };
        let set = Request {
            cmd: Normal::SetParameter.into(),
            body: vec![RW::ResetPolarity.into(), polarity],
            data_size: 0,
        };
        let enter = Request { cmd: Normal::EnterIspMode.into(), body: bytes, data_size: 0 };
        assert(set@ == set_request(RW::ResetPolarity.code(), polarity));
        assert(enter@ == enter_request(self.specs));
        let requests = vec![set, enter];
        assert(viewed_requests(requests@) == enter_requests(self.specs));
        Dialogue::new(requests)
    }

    /// The programmer in programming mode, once its answers to both requests of
    /// `enter_isp_mode` confirm them; else what is wrong with the first one that does not.
    pub fn try_into(self, answers: &[Message]) -> (result: Result<IspMode, ErrorKind>)
        requires
            answers@.len() == 2,
            long_enough(answers@[0].seq, Normal::SetParameter.code(), 0, answers@[0]@),
            long_enough(answers@[1].seq, Normal::EnterIspMode.code(), 0, answers@[1]@),
        ensures
            result == match confirmation(Normal::SetParameter.code(), answers@[0]@) {
                Ok(()) => match confirmation(Normal::EnterIspMode.code(), answers@[1]@) {
                    Ok(()) => Ok::<IspMode, ErrorKind>(IspMode { prog: self }),
                    Err(error) => Err::<IspMode, ErrorKind>(error),
                },
                Err(error) => Err::<IspMode, ErrorKind>(error),
            },
    {
        match Self::param_set(&answers[0]) {
            Ok(()) => match Self::confirm(Normal::EnterIspMode.into(), &answers[1]) {
                Ok(()) => Ok(IspMode::new(self)),
                Err(error) => Err(error),
            },
            Err(error) => Err(error),
        }
    }
}

/// An answer that a dialogue has taken is confirmed by every later look at it: it is long
/// enough to be looked at again, and has the command and the status that are asked for.
pub proof fn law_taken_answers_are_confirmed(request: RequestView, answer: MessageView)
    requires
        answers(request, answer),
    ensures
        long_enough(answer.seq, request.cmd, request.data_size, answer),
        confirmation(request.cmd, answer) == Ok::<(), ErrorKind>(()),
{
}

/// Once both requests of `enter_isp_mode` were answered, the answers are what `try_into` needs,
/// and both confirm: the programmer is in programming mode.
pub proof fn law_finished_entry_leads_to_programming_mode(dialogue: DialogueView, specs: Specs)
    requires
        dialogue.well_formed(),
        dialogue.finished(),
        dialogue.requests == enter_requests(specs),
    ensures
        dialogue.answers.len() == 2,
        ({
            let first = dialogue.answers[0];
            let second = dialogue.answers[1];
            &&& long_enough(first.seq, Normal::SetParameter.code(), 0, first)
            &&& long_enough(second.seq, Normal::EnterIspMode.code(), 0, second)
            &&& confirmation(Normal::SetParameter.code(), first) == Ok::<(), ErrorKind>(())
            &&& confirmation(Normal::EnterIspMode.code(), second) == Ok::<(), ErrorKind>(())
        }),
{
    law_taken_answers_are_confirmed(dialogue.requests[0], dialogue.answers[0]);
    law_taken_answers_are_confirmed(dialogue.requests[1], dialogue.answers[1]);
}

} // verus!
