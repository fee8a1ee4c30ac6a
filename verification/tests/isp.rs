use stk500v2::avr::{AVRFuse, Memory, Specs};
use stk500v2::dialogue::Dialogue;
use stk500v2::errors::ErrorKind;
use stk500v2::isp::IspMode;
use stk500v2::message::Message;
use stk500v2::programmer::STK500v2;

fn specs(flash: Memory, eeprom: Memory) -> Specs {
    Specs {
        timeout: 1,
        stab_delay: 2,
        cmd_exe_delay: 3,
        synch_loops: 4,
        byte_delay: 5,
        pool_value: 6,
        pool_index: 7,
        pre_delay: 8,
        post_delay: 9,
        reset_polarity: true,
        erase_poll_method: 10,
        erase_delay: 11,
        fuse_poll_index: 12,
        lock_poll_index: 13,
        signature_poll_index: 14,
        flash,
        eeprom,
    }
}

fn mode_with(flash_page: usize, flash_block: usize, eeprom_page: usize) -> IspMode {
    let flash = Memory {
        page_size: flash_page,
        block_size: flash_block,
    };
    let eeprom = Memory {
        page_size: eeprom_page,
        block_size: 0,
    };
    IspMode::new(STK500v2::open(specs(flash, eeprom)).1)
}

fn mode() -> IspMode {
    mode_with(4, 2, 4)
}

/// Runs a dialogue to its end, with `reply` as the other side. Returns the messages sent.
fn run(
    mode: &mut IspMode,
    dialogue: &mut Dialogue,
    mut reply: impl FnMut(&Message) -> Message,
) -> (Vec<Message>, Result<(), ErrorKind>) {
    let mut sent = Vec::new();
    while let Some(message) = dialogue.next(&mut mode.prog) {
        let answer = reply(&message);
        sent.push(message);
        assert!(dialogue.can_receive(&answer));
        if let Err(error) = dialogue.receive(answer) {
            return (sent, Err(error));
        }
    }
    (sent, Ok(()))
}

/// A chip: what it answers to the reading of a memory whose addresses count `unit` bytes.
fn chip(memory: Vec<u8>, unit: usize) -> impl FnMut(&Message) -> Message {
    let mut address: usize = 0;
    move |message: &Message| {
        let cmd = message.body[0];
        let mut body = vec![cmd, 0];
        if cmd == 0x06 {
            address = u32::from_be_bytes([
                message.body[1],
                message.body[2],
                message.body[3],
                message.body[4],
            ]) as usize;
        } else {
            let size = u16::from_be_bytes([message.body[1], message.body[2]]) as usize;
            body.extend_from_slice(&memory[unit * address..unit * address + size]);
        }
        Message::new(message.seq, body)
    }
}

fn bodies(sent: &[Message]) -> Vec<Vec<u8>> {
    sent.iter().map(|message| message.body.clone()).collect()
}

#[test]
fn eeprom_is_read_page_by_page() {
    let memory: Vec<u8> = (0..32).map(|i| 100 + i).collect();
    let mut mode = mode();
    let mut buffer = [0u8; 8];
    let mut dialogue = mode.read_eeprom(12, buffer.len());
    let (sent, result) = run(&mut mode, &mut dialogue, chip(memory.clone(), 1));
    assert_eq!(result, Ok(()));
    assert_eq!(
        bodies(&sent),
        vec![
            vec![0x06, 0, 0, 0, 12],
            vec![0x16, 0, 4, 0xa0],
            vec![0x06, 0, 0, 0, 16],
            vec![0x16, 0, 4, 0xa0],
        ]
    );
    let numbers: Vec<u8> = sent.iter().map(|message| message.seq).collect();
    assert_eq!(numbers, vec![0, 1, 2, 3]);
    mode.store_eeprom(dialogue.answers(), &mut buffer);
    assert_eq!(buffer, memory[12..20]);
}

#[test]
fn part_of_an_eeprom_page_stays() {
    let memory: Vec<u8> = (0..32).collect();
    let mut mode = mode();
    let mut buffer = [0xEE; 7];
    let mut dialogue = mode.read_eeprom(0, buffer.len());
    assert_eq!(
        run(&mut mode, &mut dialogue, chip(memory, 1)).1,
        Ok(())
    );
    mode.store_eeprom(dialogue.answers(), &mut buffer);
    assert_eq!(buffer, [0, 1, 2, 3, 0xEE, 0xEE, 0xEE]);
}

#[test]
fn nothing_to_read_sends_nothing() {
    let mut mode = mode();
    for mut dialogue in [mode.read_eeprom(5, 0), mode.read_eeprom(5, 3), mode.read_flash(8, 8)] {
        assert_eq!(dialogue.next(&mut mode.prog), None);
    }
}

#[test]
fn flash_is_read_by_word_address() {
    let memory: Vec<u8> = (0..16).map(|i| i * 3).collect();
    let mut mode = mode();
    let mut buffer = [0u8; 16];
    let mut dialogue = mode.read_flash(0, buffer.len());
    let (sent, result) = run(&mut mode, &mut dialogue, chip(memory.clone(), 2));
    assert_eq!(result, Ok(()));
    assert_eq!(
        bodies(&sent),
        vec![
            vec![0x06, 0, 0, 0, 0],
            vec![0x14, 0, 4, 0x20],
            vec![0x06, 0, 0, 0, 2],
            vec![0x14, 0, 4, 0x20],
            vec![0x06, 0, 0, 0, 4],
            vec![0x14, 0, 4, 0x20],
            vec![0x06, 0, 0, 0, 6],
            vec![0x14, 0, 4, 0x20],
        ]
    );
    mode.store_flash(dialogue.answers(), &mut buffer);
    assert_eq!(buffer, memory[..]);
}

#[test]
fn flash_of_an_atmega_32() {
    let memory: Vec<u8> = (0..32768usize).map(|i| (i * 31 / 7) as u8).collect();
    let flash = avrisp::atmega::ATMEGA_32.flash;
    let mut mode = mode_with(flash.page_size, flash.block_size, 4);
    let mut buffer = vec![0u8; flash.size];
    let mut dialogue = mode.read_flash(flash.start, buffer.len());
    let (sent, result) = run(&mut mode, &mut dialogue, chip(memory.clone(), 2));
    assert_eq!(result, Ok(()));
    assert_eq!(sent.len(), 512);
    assert_eq!(sent[511].seq, 255);
    assert_eq!(sent[510].body, vec![0x06, 0, 0, 0x3F, 0xC0]);
    assert_eq!(sent[511].body, vec![0x14, 0, 128, 0x20]);
    mode.store_flash(dialogue.answers(), &mut buffer);
    assert_eq!(buffer, memory);
}

#[test]
fn flash_addresses_stay_below_the_length() {
    let memory: Vec<u8> = (0..64).collect();
    let mut mode = mode();
    let mut buffer = [0xEE; 16];
    let mut dialogue = mode.read_flash(11, buffer.len());
    let (sent, result) = run(&mut mode, &mut dialogue, chip(memory, 2));
    assert_eq!(result, Ok(()));
    let addresses: Vec<u8> = sent.iter().step_by(2).map(|message| message.body[4]).collect();
    assert_eq!(addresses, vec![11, 13, 15]);
    mode.store_flash(dialogue.answers(), &mut buffer);
    assert_eq!(
        buffer,
        [22, 23, 24, 25, 26, 27, 28, 29, 30, 31, 32, 33, 0xEE, 0xEE, 0xEE, 0xEE]
    );
}

#[test]
fn pages_before_a_bad_answer_are_kept() {
    let memory: Vec<u8> = (50..66).collect();
    let mut mode = mode();
    let mut device = chip(memory, 2);
    let mut dialogue = mode.read_flash(0, 16);
    let (sent, result) = run(&mut mode, &mut dialogue, |message| {
        if message.seq == 3 {
            Message::new(3, vec![0x14, 0x80])
        } else {
            device(message)
        }
    });
    assert_eq!(result, Err(ErrorKind::StatusError));
    assert_eq!(sent.len(), 4);
    assert_eq!(dialogue.answers().len(), 3);
    let mut buffer = [0xEE; 16];
    mode.store_flash(dialogue.answers(), &mut buffer);
    assert_eq!(buffer[..4], [50, 51, 52, 53]);
    assert_eq!(buffer[4..], [0xEE; 12]);
}

#[test]
fn addresses_are_big_endian() {
    let mut mode = mode();
    let mut dialogue = mode.read_eeprom(0x0102_0304, 4);
    assert_eq!(
        dialogue.next(&mut mode.prog),
        Some(Message::new(0, vec![0x06, 1, 2, 3, 4]))
    );
}

#[test]
fn page_sizes_are_big_endian() {
    let mut mode = mode_with(4, 2, 0x0102);
    let mut dialogue = mode.read_eeprom(0, 0x0102);
    assert!(dialogue.next(&mut mode.prog).is_some());
    assert_eq!(dialogue.receive(Message::new(0, vec![0x06, 0])), Ok(()));
    assert_eq!(
        dialogue.next(&mut mode.prog),
        Some(Message::new(1, vec![0x16, 1, 2, 0xa0]))
    );
    assert!(!dialogue.can_receive(&Message::new(1, vec![0x16, 0])));
}

#[test]
fn chip_is_erased() {
    let mut mode = mode();
    let mut dialogue = mode.erase();
    assert_eq!(
        dialogue.next(&mut mode.prog),
        Some(Message::new(0, vec![0x12, 11, 10, 0xac, 0x80, 0, 0]))
    );
}

#[test]
fn programming_mode_is_left() {
    let mut mode = mode();
    let mut dialogue = mode.close();
    assert_eq!(
        dialogue.next(&mut mode.prog),
        Some(Message::new(0, vec![0x11, 8, 9]))
    );
}

#[test]
fn lock_byte_is_read() {
    let mut mode = mode();
    let mut dialogue = mode.get_lock_byte();
    assert_eq!(
        dialogue.next(&mut mode.prog),
        Some(Message::new(0, vec![0x1A, 13, 0x58, 0, 0, 0]))
    );
    assert_eq!(dialogue.receive(Message::new(0, vec![0x1A, 0, 0x3F, 0])), Ok(()));
    assert_eq!(IspMode::lock_byte(&dialogue.answers()[0]), 0x3F);
}

#[test]
fn fuses_are_read() {
    let mut mode = mode();
    let mut dialogue = mode.get_fuses();
    let (sent, result) = run(&mut mode, &mut dialogue, |message| {
        Message::new(message.seq, vec![0x18, 0, 0xE0 + message.seq, 0])
    });
    assert_eq!(result, Ok(()));
    assert_eq!(
        bodies(&sent),
        vec![
            vec![0x18, 12, 0x50, 0, 0, 0],
            vec![0x18, 12, 0x58, 0x08, 0, 0],
            vec![0x18, 12, 0x50, 0x08, 0, 0],
        ]
    );
    assert_eq!(
        IspMode::fuses(dialogue.answers()),
        AVRFuse {
            low: 0xE0,
            high: 0xE1,
            extended: 0xE2,
        }
    );
}

#[test]
fn signature_is_read() {
    let expected = avrisp::atmega::ATMEGA_32.signature.bytes;
    let bytes = [expected.0, expected.1, expected.2];
    let mut mode = mode();
    let mut dialogue = mode.get_mcu_signature();
    let (sent, result) = run(&mut mode, &mut dialogue, |message| {
        Message::new(
            message.seq,
            vec![0x1B, 0, bytes[message.body[4] as usize], 0],
        )
    });
    assert_eq!(result, Ok(()));
    assert_eq!(
        bodies(&sent),
        vec![
            vec![0x1B, 14, 0x30, 0, 0, 0],
            vec![0x1B, 14, 0x30, 0, 1, 0],
            vec![0x1B, 14, 0x30, 0, 2, 0],
        ]
    );
    let signature = IspMode::mcu_signature(dialogue.answers());
    assert_eq!(signature.bytes, (0x1e, 0x95, 0x02));
}

#[test]
fn instructions_are_those_of_the_chip() {
    let mut mode = mode();
    let (sent, _) = {
        let mut dialogue = mode.get_fuses();
        run(&mut mode, &mut dialogue, |message| {
            Message::new(message.seq, vec![0x18, 0, 0])
        })
    };
    let fuses = [
        avrisp::READ_LOW_FUSE,
        avrisp::READ_HIGH_FUSE,
        avrisp::READ_EXTENDED_FUSE,
    ];
    for (message, fuse) in sent.iter().zip(fuses) {
        assert_eq!(message.body[2..], [fuse.0, fuse.1, fuse.2, fuse.3]);
    }
    let erase = mode.erase().next(&mut mode.prog).unwrap();
    let expected = avrisp::CHIP_ERASE;
    assert_eq!(
        erase.body[3..],
        [expected.0, expected.1, expected.2, expected.3]
    );
}
