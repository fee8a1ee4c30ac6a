use stk500v2::avr::{Memory, Specs};
use stk500v2::dialogue::{Dialogue, Request};
use stk500v2::errors::ErrorKind;
use stk500v2::message::Message;
use stk500v2::param::{Readable, Writable, RO, RW};
use stk500v2::port::{CharSize, FlowControl, Parity, StopBits};
use stk500v2::programmer::STK500v2;

fn atmega_32() -> Specs {
    let specs = avrisp::atmega::ATMEGA_32;
    Specs {
        timeout: specs.timeout,
        stab_delay: specs.stab_delay,
        cmd_exe_delay: specs.cmd_exe_delay,
        synch_loops: specs.synch_loops,
        byte_delay: specs.byte_delay,
        pool_value: specs.pool_value,
        pool_index: specs.pool_index,
        pre_delay: specs.pre_delay,
        post_delay: specs.post_delay,
        reset_polarity: specs.reset_polarity,
        erase_poll_method: specs.erase_poll_method,
        erase_delay: specs.erase_delay,
        fuse_poll_index: specs.fuse_poll_index,
        lock_poll_index: specs.lock_poll_index,
        signature_poll_index: specs.signature_poll_index,
        flash: Memory {
            page_size: specs.flash.page_size,
            block_size: specs.flash.block_size,
        },
        eeprom: Memory {
            page_size: specs.eeprom.page_size,
            block_size: specs.eeprom.block_size,
        },
    }
}

fn request(cmd: u8, body: Vec<u8>, data_size: usize) -> Request {
    Request {
        cmd,
        body,
        data_size,
    }
}

#[test]
fn open_sets_the_line_up() {
    let (line, programmer) = STK500v2::open(atmega_32());
    assert_eq!(line.baud_rate, 115200);
    assert_eq!(line.parity, Parity::ParityNone);
    assert_eq!(line.stop_bits, StopBits::Stop1);
    assert_eq!(line.char_size, CharSize::Bits8);
    assert_eq!(line.flow_control, FlowControl::FlowNone);
    assert_eq!(line.timeout_secs, 1);
    assert_eq!(programmer.sequencer.count, 0);
    assert_eq!(programmer.specs, atmega_32());
}

#[test]
fn command_comes_before_the_body() {
    let (_, mut programmer) = STK500v2::open(atmega_32());
    assert_eq!(
        programmer.cmd(0x02, vec![0x9E, 1]),
        Message::new(0, vec![0x02, 0x9E, 1])
    );
    assert_eq!(programmer.cmd(0x01, vec![]), Message::new(1, vec![0x01]));
}

#[test]
fn answers_are_checked() {
    let check = |seq, body: Vec<u8>| STK500v2::check_answer(9, 0x14, Message::new(seq, body));
    assert_eq!(check(8, vec![]), Err(ErrorKind::SequenceError));
    assert_eq!(check(8, vec![0x14, 0]), Err(ErrorKind::SequenceError));
    assert_eq!(check(9, vec![0x15]), Err(ErrorKind::AnswerIdError));
    assert_eq!(check(9, vec![0x15, 0xC0]), Err(ErrorKind::AnswerIdError));
    assert_eq!(check(9, vec![0x14, 0x80]), Err(ErrorKind::StatusError));
    assert_eq!(
        check(9, vec![0x14, 0, 7]),
        Ok(Message::new(9, vec![0x14, 0, 7]))
    );
}

#[test]
fn requests_go_out_one_by_one() {
    let (_, mut programmer) = STK500v2::open(atmega_32());
    programmer.sequencer.count = 255;
    let mut dialogue = Dialogue::new(vec![request(1, vec![], 0), request(2, vec![5], 1)]);

    assert_eq!(
        dialogue.next(&mut programmer),
        Some(Message::new(255, vec![1]))
    );
    let answer = Message::new(255, vec![1, 0]);
    assert!(dialogue.can_receive(&answer));
    assert_eq!(dialogue.receive(answer), Ok(()));

    assert_eq!(
        dialogue.next(&mut programmer),
        Some(Message::new(0, vec![2, 5]))
    );
    let answer = Message::new(0, vec![2, 0, 77]);
    assert!(dialogue.can_receive(&answer));
    assert_eq!(dialogue.receive(answer), Ok(()));

    assert_eq!(dialogue.next(&mut programmer), None);
    assert_eq!(programmer.sequencer.count, 1);
    assert_eq!(
        dialogue.answers(),
        &[
            Message::new(255, vec![1, 0]),
            Message::new(0, vec![2, 0, 77])
        ]
    );
}

#[test]
fn first_bad_answer_ends_the_dialogue() {
    let bad = vec![
        (Message::new(7, vec![2, 0]), ErrorKind::SequenceError),
        (Message::new(1, vec![3, 0]), ErrorKind::AnswerIdError),
        (Message::new(1, vec![2, 0xC9]), ErrorKind::StatusError),
    ];
    for (answer, error) in bad {
        let (_, mut programmer) = STK500v2::open(atmega_32());
        let mut dialogue = Dialogue::new(vec![
            request(1, vec![], 0),
            request(2, vec![], 0),
            request(3, vec![], 0),
        ]);
        assert!(dialogue.next(&mut programmer).is_some());
        assert_eq!(dialogue.receive(Message::new(0, vec![1, 0])), Ok(()));
        assert!(dialogue.next(&mut programmer).is_some());
        assert!(dialogue.can_receive(&answer));
        assert_eq!(dialogue.receive(answer), Err(error));
        assert_eq!(dialogue.next(&mut programmer), None);
        assert_eq!(programmer.sequencer.count, 2);
        assert_eq!(dialogue.answers(), &[Message::new(0, vec![1, 0])]);
    }
}

#[test]
fn short_answers_do_not_fit() {
    let (_, mut programmer) = STK500v2::open(atmega_32());
    let mut dialogue = Dialogue::single(request(0x18, vec![], 1));
    assert!(!dialogue.can_receive(&Message::new(0, vec![0x18, 0, 1])));
    assert!(dialogue.next(&mut programmer).is_some());
    assert!(!dialogue.can_receive(&Message::new(0, vec![])));
    assert!(!dialogue.can_receive(&Message::new(0, vec![0x18])));
    assert!(!dialogue.can_receive(&Message::new(0, vec![0x18, 0])));
    assert!(dialogue.can_receive(&Message::new(0, vec![0x18, 0, 1])));
    assert!(dialogue.can_receive(&Message::new(0, vec![0x18, 0xC0])));
    assert!(dialogue.can_receive(&Message::new(0, vec![0x19])));
    assert!(dialogue.can_receive(&Message::new(1, vec![])));
}

#[test]
fn empty_dialogue_sends_nothing() {
    let (_, mut programmer) = STK500v2::open(atmega_32());
    assert_eq!(Dialogue::new(vec![]).next(&mut programmer), None);
    assert_eq!(programmer.sequencer.count, 0);
}

#[test]
fn parameter_is_set() {
    let (_, mut programmer) = STK500v2::open(atmega_32());
    let mut dialogue = programmer.set_param(RW::SckDuration, 3);
    assert_eq!(
        dialogue.next(&mut programmer),
        Some(Message::new(0, vec![0x02, 0x98, 3]))
    );
    assert_eq!(dialogue.receive(Message::new(0, vec![0x02, 0])), Ok(()));
    assert_eq!(STK500v2::param_set(&dialogue.answers()[0]), Ok(()));
}

#[test]
fn set_parameter_has_to_be_confirmed() {
    assert_eq!(
        STK500v2::param_set(&Message::new(0, vec![0x03])),
        Err(ErrorKind::AnswerIdError)
    );
    assert_eq!(
        STK500v2::param_set(&Message::new(0, vec![0x02, 0xC0])),
        Err(ErrorKind::StatusError)
    );
}

#[test]
fn parameter_is_read() {
    let (_, mut programmer) = STK500v2::open(atmega_32());
    let mut dialogue = programmer.get_param(RO::SwMinor);
    assert_eq!(
        dialogue.next(&mut programmer),
        Some(Message::new(0, vec![0x03, 0x92]))
    );
    assert_eq!(dialogue.receive(Message::new(0, vec![0x03, 0, 10])), Ok(()));
    assert_eq!(STK500v2::param_value(&dialogue.answers()[0]), Ok(10));
    let mut dialogue = programmer.get_param(RW::Vtarget);
    assert_eq!(
        dialogue.next(&mut programmer),
        Some(Message::new(1, vec![0x03, 0x94]))
    );
}

#[test]
fn parameter_value_has_to_be_confirmed() {
    assert_eq!(
        STK500v2::param_value(&Message::new(0, vec![0x02, 0, 1])),
        Err(ErrorKind::AnswerIdError)
    );
    assert_eq!(
        STK500v2::param_value(&Message::new(0, vec![0x03, 0x80, 1])),
        Err(ErrorKind::StatusError)
    );
}

#[test]
fn programmer_tells_its_name() {
    let (_, mut programmer) = STK500v2::open(atmega_32());
    let mut dialogue = programmer.read_programmer_signature();
    assert_eq!(
        dialogue.next(&mut programmer),
        Some(Message::new(0, vec![0x01]))
    );
    let mut body = vec![0x01, 0, 8];
    body.extend_from_slice(b"STK500_2");
    assert_eq!(dialogue.receive(Message::new(0, body)), Ok(()));
    assert_eq!(
        STK500v2::programmer_signature(&dialogue.answers()[0]),
        Ok(String::from("STK500_2"))
    );
}

#[test]
fn name_is_utf8() {
    let named = |name: &[u8]| {
        let mut body = vec![0x01, 0, 0];
        body.extend_from_slice(name);
        STK500v2::programmer_signature(&Message::new(0, body))
    };
    assert_eq!(named(b""), Ok(String::new()));
    assert_eq!(named("µ€𝄞".as_bytes()), Ok(String::from("µ€𝄞")));
    assert_eq!(named(&[0xFF]), Err(ErrorKind::Utf8Error));
    assert_eq!(named(&[0x41, 0xC3]), Err(ErrorKind::Utf8Error));
    assert_eq!(named(&[0xC0, 0x80]), Err(ErrorKind::Utf8Error));
    assert_eq!(named(&[0xED, 0xA0, 0x80]), Err(ErrorKind::Utf8Error));
}

#[test]
fn programming_mode_is_entered() {
    let (_, mut programmer) = STK500v2::open(atmega_32());
    let mut dialogue = programmer.enter_isp_mode();
    assert_eq!(
        dialogue.next(&mut programmer),
        Some(Message::new(0, vec![0x02, 0x9E, 1]))
    );
    assert_eq!(dialogue.receive(Message::new(0, vec![0x02, 0])), Ok(()));
    assert_eq!(
        dialogue.next(&mut programmer),
        Some(Message::new(
            1,
            vec![0x10, 0xc8, 0x64, 0x19, 0x20, 0x00, 0x53, 0x03, 0xac, 0x53, 0x00, 0x00]
        ))
    );
    assert_eq!(dialogue.receive(Message::new(1, vec![0x10, 0])), Ok(()));
    assert_eq!(dialogue.next(&mut programmer), None);
    let mode = programmer.try_into(dialogue.answers()).ok().unwrap();
    assert_eq!(mode.prog.sequencer.count, 2);
    assert_eq!(mode.prog.specs, atmega_32());
}

#[test]
fn reset_polarity_is_a_number() {
    let mut specs = atmega_32();
    specs.reset_polarity = false;
    let (_, mut programmer) = STK500v2::open(specs);
    let mut dialogue = programmer.enter_isp_mode();
    assert_eq!(
        dialogue.next(&mut programmer),
        Some(Message::new(0, vec![0x02, 0x9E, 0]))
    );
}

#[test]
fn programming_mode_has_to_be_confirmed() {
    let enter = |first: Vec<u8>, second: Vec<u8>| {
        let (_, programmer) = STK500v2::open(atmega_32());
        let answers = [Message::new(0, first), Message::new(1, second)];
        programmer.try_into(&answers).err()
    };
    let id_error = Some(ErrorKind::AnswerIdError);
    let status_error = Some(ErrorKind::StatusError);
    assert_eq!(enter(vec![0x02, 0], vec![0x10, 0]), None);
    assert_eq!(enter(vec![0x03], vec![0x10, 0]), id_error);
    assert_eq!(enter(vec![0x02, 1], vec![0x10, 0]), status_error);
    assert_eq!(enter(vec![0x02, 0], vec![0x11]), id_error);
    assert_eq!(enter(vec![0x02, 0], vec![0x10, 0xC0]), status_error);
    assert_eq!(enter(vec![0x02, 1], vec![0x11]), status_error);
}

/// A parameter of another device, with a code of its own.
struct Custom(u8);

impl Readable for Custom {}

impl Writable for Custom {}

impl From<Custom> for u8 {
    fn from(param: Custom) -> u8 {
        param.0 + 1
    }
}

#[test]
fn parameters_of_other_types_are_sent_by_their_code() {
    let (_, mut programmer) = STK500v2::open(atmega_32());
    assert_eq!(
        programmer.set_param(Custom(0x40), 5).next(&mut programmer),
        Some(Message::new(0, vec![0x02, 0x41, 5]))
    );
    assert_eq!(
        programmer.get_param(Custom(0x50)).next(&mut programmer),
        Some(Message::new(1, vec![0x03, 0x51]))
    );
}
