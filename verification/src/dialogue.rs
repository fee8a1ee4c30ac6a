//! Requests and answers, one after the other.

use crate::errors::ErrorKind;
use crate::message::{
    decode, frame, law_decode_gives_back_what_was_framed, Message, MessageView,
};
use crate::programmer::STK500v2;
use crate::sequence::{following, nth_following};
use crate::status::Status;
use vstd::prelude::*;
use vstd::slice::slice_to_vec;

verus! {

/// A command for the programmer, with what it has to answer.
#[derive(Debug)]
pub struct Request {
    /// Code of the command.
    pub cmd: u8,
    /// What follows the code.
    pub body: Vec<u8>,
    /// How many bytes the answer has to carry behind the code and the status.
    pub data_size: usize,
}

/// What a request says.
#[verifier::ext_equal]
pub struct RequestView {
    pub cmd: u8,
    pub body: Seq<u8>,
    pub data_size: nat,
}

impl View for Request {
    type V = RequestView;

    open spec fn view(&self) -> RequestView {
        RequestView { cmd: self.cmd, body: self.body@, data_size: self.data_size as nat }
    }
}

/// What each request of a list says.
pub open spec fn viewed_requests(requests: Seq<Request>) -> Seq<RequestView> {
    requests.map_values(|request: Request| request@)
}

/// What each message of a list says.
pub open spec fn viewed_messages(messages: Seq<Message>) -> Seq<MessageView> {
    messages.map_values(|message: Message| message@)
}

/// The message that carries a request: the code of the command, then the request's body.
pub open spec fn carrier(seq: u8, cmd: u8, body: Seq<u8>) -> MessageView {
    MessageView { seq, len: ((body.len() + 1) % 0x1_0000) as u16, body: seq![cmd] + body }
}

/// A message can hold the request.
pub open spec fn fits_in_a_message(request: RequestView) -> bool {
    1 + request.body.len() <= Message::MAX_BODY_SIZE
}

/// What becomes of the answer to message `seq` with command `cmd`: it has to carry the
/// same number and the same command, and the status that all went well.
pub open spec fn check(seq: u8, cmd: u8, answer: MessageView) -> Result<MessageView, ErrorKind> {
    if answer.seq != seq {
        Err(ErrorKind::SequenceError)
    } else if answer.body[0] != cmd {
        Err(ErrorKind::AnswerIdError)
    } else if answer.body[1] != Status::CmdOk.code() {
        Err(ErrorKind::StatusError)
    } else {
        Ok(answer)
    }
}

/// All bytes that `check` looks at are there, and, once it is satisfied, `data_size` more.
pub open spec fn long_enough(seq: u8, cmd: u8, data_size: nat, answer: MessageView) -> bool {
    answer.seq == seq ==> {
        &&& answer.body.len() >= 1
        &&& answer.body[0] == cmd ==> {
            &&& answer.body.len() >= 2
            &&& answer.body[1] == Status::CmdOk.code() ==> answer.body.len() >= 2 + data_size
        }
    }
}

/// `answer` is a good answer to `request`.
pub open spec fn answers(request: RequestView, answer: MessageView) -> bool {
    &&& answer.body.len() >= 2 + request.data_size
    &&& answer.body[0] == request.cmd
    &&& answer.body[1] == Status::CmdOk.code()
}

/// Requests that are sent one after the other, each when the one before it was answered.
/// The first bad answer ends it.
pub struct Dialogue {
    requests: Vec<Request>,
    answers: Vec<Message>,
    pending: Option<u8>,
    error: Option<ErrorKind>,
}

/// How far a dialogue has come.
#[verifier::ext_equal]
pub struct DialogueView {
    /// All requests, those not sent yet among them.
    pub requests: Seq<RequestView>,
    /// The good answers so far.
    pub answers: Seq<MessageView>,
    /// Sequence number of the message that waits for its answer.
    pub pending: Option<u8>,
    /// What was wrong with the answer that ended it.
    pub error: Option<ErrorKind>,
}

impl View for Dialogue {
    type V = DialogueView;

    closed spec fn view(&self) -> DialogueView {
        DialogueView {
            requests: viewed_requests(self.requests@),
            answers: viewed_messages(self.answers@),
            pending: self.pending,
            error: self.error,
        }
    }
}

impl DialogueView {
    /// Answers belong to requests in order; a message waits for its answer only while
    /// requests are left and nothing went wrong.
    pub open spec fn well_formed(self) -> bool {
        &&& self.answers.len() <= self.requests.len()
        &&& self.pending is Some ==> self.answers.len() < self.requests.len() && self.error is None
        &&& self.error is Some ==> self.answers.len() < self.requests.len()
        &&& forall|i: int|
            0 <= i < self.answers.len() ==> answers(
                #[trigger] self.requests[i],
                #[trigger] self.answers[i],
            )
    }

    /// Nothing was sent yet.
    pub open spec fn fresh(self, requests: Seq<RequestView>) -> bool {
        &&& self.requests == requests
        &&& self.answers.len() == 0
        &&& self.pending is None
        &&& self.error is None
    }

    /// Every request has its answer.
    pub open spec fn finished(self) -> bool {
        &&& self.answers.len() == self.requests.len()
        &&& self.pending is None
        &&& self.error is None
    }

    /// Nothing is left to be sent.
    pub open spec fn over(self) -> bool {
        self.error is Some || self.answers.len() == self.requests.len()
    }

    /// The request to send next, or the one that waits for its answer.
    pub open spec fn current(self) -> RequestView {
        self.requests[self.answers.len() as int]
    }

    /// After the current request was sent in message `seq`.
    pub open spec fn sent(self, seq: u8) -> DialogueView {
        DialogueView { pending: Some(seq), ..self }
    }

    /// After an answer came.
    pub open spec fn received(self, answer: MessageView) -> DialogueView {
        match check(self.pending->Some_0, self.current().cmd, answer) {
            Ok(good) => DialogueView { answers: self.answers.push(good), pending: None, ..self },
            Err(error) => DialogueView { pending: None, error: Some(error), ..self },
        }
    }

    /// The waiting message may be given this answer.
    pub open spec fn can_receive(self, answer: MessageView) -> bool {
        &&& self.pending is Some
        &&& long_enough(
            self.pending->Some_0,
            self.current().cmd,
            self.current().data_size,
            answer,
        )
    }
}

impl Dialogue {
    /// A dialogue over these requests.
    pub fn new(requests: Vec<Request>) -> (dialogue: Dialogue)
        ensures
            dialogue@.fresh(viewed_requests(requests@)),
            dialogue@.well_formed(),
    {
        Dialogue { requests, answers: Vec::new(), pending: None, error: None }
    }

    /// A dialogue over a single request.
    pub fn single(request: Request) -> (dialogue: Dialogue)
        ensures
            dialogue@.fresh(seq![request@]),
            dialogue@.well_formed(),
    {
        let requests = vec![request];
        assert(viewed_requests(requests@) == seq![request@]);
        Dialogue::new(requests)
    }

    /// The next message to send, if there is one. Its sequence number comes from the
    /// programmer.
    pub fn next(&mut self, programmer: &mut STK500v2) -> (message: Option<Message>)
        requires
            old(self)@.well_formed(),
            old(self)@.pending is None,
        ensures
            final(self)@.well_formed(),
            message is None <==> old(self)@.over(),
            message is None ==> final(self)@ == old(self)@ && *final(programmer) == *old(
                programmer,
            ),
            message matches Some(sent) ==> {
                let seq = old(programmer).sequencer.count;
                &&& final(self)@ == old(self)@.sent(seq)
                &&& sent@ == carrier(seq, old(self)@.current().cmd, old(self)@.current().body)
                &&& final(programmer).sequencer.count == following(seq)
                &&& final(programmer).specs == old(programmer).specs
            },
    {
        if self.error.is_some() || self.answers.len() >= self.requests.len() {
            return None;
        }
        let request = &self.requests[self.answers.len()];
        let message = programmer.cmd(request.cmd, slice_to_vec(request.body.as_slice()));
        self.pending = Some(message.seq);
        Some(message)
    }

    /// Tells whether the message that waits for its answer may be given this one: whether
    /// the answer is as long as its first bytes make it have to be.
    pub fn can_receive(&self, answer: &Message) -> (fits: bool)
        requires
            self@.well_formed(),
        ensures
            fits == self@.can_receive(answer@),
    {
        match self.pending {
            None => false,
            Some(seq) => {
                let request = &self.requests[self.answers.len()];
                if answer.seq != seq {
                    true
                } else if answer.body.len() < 1 {
                    false
                } else if answer.body[0] != request.cmd {
                    true
                } else if answer.body.len() < 2 {
                    false
                } else {
                    answer.body[1] != u8::from(Status::CmdOk) || answer.body.len() - 2
                        >= request.data_size
                }
            },
        }
    }

    /// Takes the answer to the message that waits for one. A bad answer ends the dialogue.
    pub fn receive(&mut self, answer: Message) -> (result: Result<(), ErrorKind>)
        requires
            old(self)@.well_formed(),
            old(self)@.can_receive(answer@),
        ensures
            final(self)@.well_formed(),
            final(self)@ == old(self)@.received(answer@),
            result matches Err(error) ==> final(self)@.error == Some(error),
            result is Ok <==> final(self)@.error is None,
    {
        let seq: u8 = self.pending.unwrap();
        let request = &self.requests[self.answers.len()];
        self.pending = None;
        match STK500v2::check_answer(seq, request.cmd, answer) {
            Ok(good) => {
                self.answers.push(good);
                assert(self@ == old(self)@.received(answer@));
                Ok(())
            },
            Err(error) => {
                self.error = Some(error);
                Err(error)
            },
        }
    }

    /// The good answers so far, in the order of the requests.
    pub fn answers(&self) -> (answers: &[Message])
        requires
            self@.well_formed(),
        ensures
            viewed_messages(answers@) == self@.answers,
    {
        self.answers.as_slice()
    }
}

/// What happens when a dialogue goes on from `dialogue`, with `count` as the next sequence
/// number, and the answers that come back are `replies`: the messages that are sent, and the
/// dialogue as it is then. It goes on until nothing is left to be sent or no answer is left.
pub open spec fn conversation(
    dialogue: DialogueView,
    count: u8,
    replies: Seq<MessageView>,
) -> (Seq<MessageView>, DialogueView)
    decreases replies.len(),
{
    if dialogue.over() || replies.len() == 0 {
        (seq![], dialogue)
    } else {
        let request = dialogue.current();
        let (sent, end) = conversation(
            dialogue.sent(count).received(replies[0]),
            following(count),
            replies.drop_first(),
        );
        (seq![carrier(count, request.cmd, request.body)] + sent, end)
    }
}

/// What becomes of the answer at place `i` among `replies`.
pub open spec fn judged(
    dialogue: DialogueView,
    count: u8,
    replies: Seq<MessageView>,
    i: int,
) -> Result<MessageView, ErrorKind> {
    check(
        nth_following(count, i as nat),
        dialogue.requests[dialogue.answers.len() + i].cmd,
        replies[i],
    )
}

/// Requests go out in order, one message each, and their sequence numbers count up.
pub proof fn law_requests_are_sent_in_order(
    dialogue: DialogueView,
    count: u8,
    replies: Seq<MessageView>,
    i: int,
)
    requires
        dialogue.answers.len() <= dialogue.requests.len(),
        dialogue.pending is None,
        0 <= i < conversation(dialogue, count, replies).0.len(),
    ensures
        dialogue.answers.len() + i < dialogue.requests.len(),
        ({
            let request = dialogue.requests[dialogue.answers.len() + i];
            conversation(dialogue, count, replies).0[i] == carrier(
                nth_following(count, i as nat),
                request.cmd,
                request.body,
            )
        }),
    decreases replies.len(),
{
    let next = dialogue.sent(count).received(replies[0]);
    if i > 0 {
        law_requests_are_sent_in_order(next, following(count), replies.drop_first(), i - 1);
    }
}

/// Good answers bring a dialogue to its end: if as many answers come as requests are left,
/// and all are good, each request was sent once and the answers are kept in order.
pub proof fn law_good_answers_finish_a_dialogue(
    dialogue: DialogueView,
    count: u8,
    replies: Seq<MessageView>,
)
    requires
        dialogue.pending is None,
        dialogue.error is None,
        dialogue.answers.len() + replies.len() == dialogue.requests.len(),
        forall|i: int|
            0 <= i < replies.len() ==> (#[trigger] judged(dialogue, count, replies, i)) is Ok,
    ensures
        conversation(dialogue, count, replies).0.len() == replies.len(),
        conversation(dialogue, count, replies).1.finished(),
        conversation(dialogue, count, replies).1.requests == dialogue.requests,
        conversation(dialogue, count, replies).1.answers == dialogue.answers + replies,
    decreases replies.len(),
{
    if replies.len() == 0 {
        assert(dialogue.answers + replies == dialogue.answers);
    } else {
        let rest = replies.drop_first();
        let next = dialogue.sent(count).received(replies[0]);
        assert(judged(dialogue, count, replies, 0) is Ok);
        assert forall|i: int| 0 <= i < rest.len() implies (#[trigger] judged(
            next,
            following(count),
            rest,
            i,
        )) is Ok by {
            assert(judged(dialogue, count, replies, i + 1) is Ok);
        }
        law_good_answers_finish_a_dialogue(next, following(count), rest);
        assert(next.answers + rest == dialogue.answers + replies);
    }
}

/// The first bad answer ends a dialogue: the requests behind it are not sent, the good
/// answers before it are kept, and what was wrong with it is what the dialogue reports.
pub proof fn law_first_bad_answer_ends_a_dialogue(
    dialogue: DialogueView,
    count: u8,
    replies: Seq<MessageView>,
    bad: int,
)
    requires
        dialogue.pending is None,
        dialogue.error is None,
        0 <= bad < replies.len(),
        dialogue.answers.len() + bad < dialogue.requests.len(),
        forall|i: int|
            0 <= i < bad ==> (#[trigger] judged(dialogue, count, replies, i)) is Ok,
        judged(dialogue, count, replies, bad) is Err,
    ensures
        conversation(dialogue, count, replies).0.len() == bad + 1,
        conversation(dialogue, count, replies).1.error == Some(
            judged(dialogue, count, replies, bad)->Err_0,
        ),
        conversation(dialogue, count, replies).1.answers == dialogue.answers + replies.take(bad),
    decreases bad,
{
    reveal_with_fuel(conversation, 2);
    let rest = replies.drop_first();
    let next = dialogue.sent(count).received(replies[0]);
    if bad == 0 {
        assert(dialogue.answers + replies.take(0) == dialogue.answers);
    } else {
        assert(judged(dialogue, count, replies, 0) is Ok);
        assert forall|i: int| 0 <= i < bad - 1 implies (#[trigger] judged(
            next,
            following(count),
            rest,
            i,
        )) is Ok by {
            assert(judged(dialogue, count, replies, i + 1) is Ok);
        }
        assert(judged(next, following(count), rest, bad - 1) == judged(
            dialogue,
            count,
            replies,
            bad,
        ));
        law_first_bad_answer_ends_a_dialogue(next, following(count), rest, bad - 1);
        assert(next.answers + rest.take(bad - 1) == dialogue.answers + replies.take(bad));
    }
}

/// Answers that are long enough keep a dialogue well formed to its end: every answer that it
/// keeps is a good answer to its request.
pub proof fn law_conversations_keep_dialogues_well_formed(
    dialogue: DialogueView,
    count: u8,
    replies: Seq<MessageView>,
)
    requires
        dialogue.well_formed(),
        dialogue.pending is None,
        forall|i: int|
            0 <= i < replies.len() && dialogue.answers.len() + i < dialogue.requests.len()
                ==> long_enough(
                nth_following(count, i as nat),
                dialogue.requests[dialogue.answers.len() + i].cmd,
                dialogue.requests[dialogue.answers.len() + i].data_size,
                #[trigger] replies[i],
            ),
    ensures
        conversation(dialogue, count, replies).1.well_formed(),
        conversation(dialogue, count, replies).1.requests == dialogue.requests,
    decreases replies.len(),
{
    reveal_with_fuel(conversation, 2);
    if !dialogue.over() && replies.len() > 0 {
        let rest = replies.drop_first();
        let next = dialogue.sent(count).received(replies[0]);
        assert(long_enough(
            nth_following(count, 0),
            dialogue.current().cmd,
            dialogue.current().data_size,
            replies[0],
        ));
        if next.error is None {
            assert forall|i: int|
                0 <= i < rest.len() && next.answers.len() + i
                    < next.requests.len() implies long_enough(
                nth_following(following(count), i as nat),
                next.requests[next.answers.len() + i].cmd,
                next.requests[next.answers.len() + i].data_size,
                #[trigger] rest[i],
            ) by {
                assert(rest[i] == replies[i + 1]);
            }
            law_conversations_keep_dialogues_well_formed(next, following(count), rest);
        }
    }
}

/// An answer is good for one sequence number only: it never passes for the answer to a
/// message with another number.
pub proof fn law_answer_is_good_for_one_message(
    seq: u8,
    other: u8,
    cmd: u8,
    other_cmd: u8,
    answer: MessageView,
)
    requires
        check(seq, cmd, answer) is Ok,
        other != seq,
    ensures
        check(other, other_cmd, answer) == Err::<MessageView, ErrorKind>(ErrorKind::SequenceError),
{
}

/// A request that a message can hold arrives as it was made: the frame of the message that
/// carries it fits in a buffer, and decodes to that message.
pub proof fn law_requests_arrive(request: RequestView, seq: u8, buffer: Seq<u8>)
    requires
        fits_in_a_message(request),
        frame(carrier(seq, request.cmd, request.body)).is_prefix_of(buffer),
    ensures
        frame(carrier(seq, request.cmd, request.body)).len() <= Message::MAX_SIZE,
        decode(buffer) == Ok::<MessageView, ErrorKind>(carrier(seq, request.cmd, request.body)),
{
    law_decode_gives_back_what_was_framed(carrier(seq, request.cmd, request.body), buffer);
}

} // verus!
