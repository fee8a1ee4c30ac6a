//! Programming mode: reading and erasing the chip.

use crate::avr::{
    chip_erase_instruction, read_eeprom_instruction, read_extended_fuse_instruction,
    read_flash_low_instruction, read_high_fuse_instruction, read_lock_instruction,
    read_low_fuse_instruction, read_signature_instruction, signature_from, AVRFuse, IspCommand,
    Signature, Specs,
};
use crate::command::{Isp, Normal};
use crate::dialogue::{
    answers, fits_in_a_message, viewed_messages, viewed_requests, Dialogue, DialogueView, Request,
    RequestView,
};
use crate::message::Message;
use crate::pages::{
    addresses_fit, answered_from, law_pages_that_are_read, lemma_pages_come_from_memory,
    lemma_pages_fit, page_count, page_requests, pages_fit, read_pages, store_pages, with_pages,
    DATA_OFFSET,
};
use crate::programmer::{enter_request, get_request, set_request, sign_on_request, STK500v2};
use vstd::arithmetic::div_mod::lemma_fundamental_div_mod;
use vstd::prelude::*;

verus! {

/// The requests that read flash memory into a buffer of `len` bytes. Addresses count words,
/// and go up by the block size, while they are below `len`. Instruction 20 reads flash.
pub open spec fn flash_requests(specs: Specs, start: int, len: int) -> Seq<RequestView> {
    let step = specs.flash.block_size as int;
    let page_size = specs.flash.page_size as int;
    page_requests(
        Isp::ReadFlash.code(),
        0x20,
        start,
        step,
        page_size,
        page_count(start, len, step, page_size, len),
    )
}

/// The requests that read EEPROM into a buffer of `len` bytes. Instruction A0 reads EEPROM.
pub open spec fn eeprom_requests(specs: Specs, start: int, len: int) -> Seq<RequestView> {
    let page_size = specs.eeprom.page_size as int;
    page_requests(
        Isp::ReadEeprom.code(),
        0xa0,
        start,
        page_size,
        page_size,
        page_count(start, start + len, page_size, page_size, len),
    )
}

/// The request for an instruction of which the chip gives back a byte, with where in its
/// reply that byte stands.
pub open spec fn byte_request(cmd: u8, poll_index: u8, instruction: IspCommand) -> RequestView {
    RequestView {
        cmd,
        body: seq![poll_index, instruction.0, instruction.1, instruction.2, instruction.3],
        data_size: 1,
    }
}

/// The request that erases the chip, with the instruction for it.
pub open spec fn erase_request(specs: Specs) -> RequestView {
    RequestView {
        cmd: Isp::ChipErase.code(),
        body: seq![specs.erase_delay, specs.erase_poll_method, 0xac, 0x80, 0x00, 0x00],
        data_size: 0,
    }
}

/// The request that turns programming mode off.
pub open spec fn leave_request(specs: Specs) -> RequestView {
    RequestView {
        cmd: Normal::LeaveIspMode.code(),
        body: seq![specs.pre_delay, specs.post_delay],
        data_size: 0,
    }
}

/// The request for the lock byte.
pub open spec fn lock_request(specs: Specs) -> RequestView {
    byte_request(Isp::ReadLock.code(), specs.lock_poll_index, (0x58, 0x00, 0x00, 0x00))
}

/// The request for the fuse byte that an instruction reads.
pub open spec fn fuse_request(specs: Specs, instruction: IspCommand) -> RequestView {
    byte_request(Isp::ReadFuse.code(), specs.fuse_poll_index, instruction)
}

/// The requests for the low, the high and the extended fuse byte.
pub open spec fn fuse_requests(specs: Specs) -> Seq<RequestView> {
    seq![
        fuse_request(specs, (0x50, 0x00, 0x00, 0x00)),
        fuse_request(specs, (0x58, 0x08, 0x00, 0x00)),
        fuse_request(specs, (0x50, 0x08, 0x00, 0x00)),
    ]
}

/// The requests for the three bytes of the signature.
pub open spec fn signature_requests(specs: Specs) -> Seq<RequestView> {
    Seq::new(
        3,
        |i: int|
            byte_request(
                Isp::ReadSignature.code(),
                specs.signature_poll_index,
                (0x30, 0x00, i as u8, 0x00),
            ),
    )
}

/// A programmer in programming mode.
pub struct IspMode {
    pub prog: STK500v2,
}

impl IspMode {
    pub fn new(prog: STK500v2) -> (mode: IspMode)
        ensures
            mode.prog == prog,
    {
        IspMode { prog }
    }

    /// Asks for flash memory, to fill a buffer of `len` bytes. `store_flash` reads the answers.
    ///
    /// Does not work on atmega2560.
    /// Requires some kind of different handling when loading memory address
    pub fn read_flash(&self, start: usize, len: usize) -> (dialogue: Dialogue)
        requires
            0 < self.prog.specs.flash.page_size,
            0 < self.prog.specs.flash.block_size,
        ensures
            dialogue@.fresh(flash_requests(self.prog.specs, start as int, len as int)),
            dialogue@.well_formed(),
    {
        // For word-addressed memories (program flash), the Address parameter is the word address.
        let bytes_to_read: usize = self.prog.specs.flash.page_size;
        // Block size is given in words. Word is 16 bit.
        let step_by: usize = self.prog.specs.flash.block_size;
        // Read Program Memory command byte #1
        let read_command = read_flash_low_instruction().0;
        read_pages(
            Isp::ReadFlash.into(),
            read_command,
            start,
            len,
            step_by,
            bytes_to_read,
            len,
        )
    }

    /// Puts the flash pages that were answered into the buffer. The rest of it stays.
    pub fn store_flash(&self, answers: &[Message], buffer: &mut [u8])
        requires
            pages_fit(
                viewed_messages(answers@),
                self.prog.specs.flash.page_size as int,
                old(buffer)@.len() as int,
            ),
        ensures
            final(buffer)@ == with_pages(
                old(buffer)@,
                viewed_messages(answers@),
                self.prog.specs.flash.page_size as int,
            ),
    {
        store_pages(self.prog.specs.flash.page_size, answers, buffer)
    }

    /// Asks for EEPROM, to fill a buffer of `len` bytes. `store_eeprom` reads the answers.
    ///
    /// Does not work on atmega2560.
    /// Requires some kind of different handling when loading memory address
    pub fn read_eeprom(&self, start: usize, len: usize) -> (dialogue: Dialogue)
        requires
            0 < self.prog.specs.eeprom.page_size,
            start + len <= usize::MAX,
        ensures
            dialogue@.fresh(eeprom_requests(self.prog.specs, start as int, len as int)),
            dialogue@.well_formed(),
    {
        let page_size: usize = self.prog.specs.eeprom.page_size;
        read_pages(
            Isp::ReadEeprom.into(),
            read_eeprom_instruction().0,
            start,
            len + start,
            page_size,
            page_size,
            len,
        )
    }

    /// Puts the EEPROM pages that were answered into the buffer. The rest of it stays.
    pub fn store_eeprom(&self, answers: &[Message], buffer: &mut [u8])
        requires
            pages_fit(
                viewed_messages(answers@),
                self.prog.specs.eeprom.page_size as int,
                old(buffer)@.len() as int,
            ),
        ensures
            final(buffer)@ == with_pages(
                old(buffer)@,
                viewed_messages(answers@),
                self.prog.specs.eeprom.page_size as int,
            ),
    {
        store_pages(self.prog.specs.eeprom.page_size, answers, buffer)
    }

    /// The request for an instruction of which the chip gives back a byte.
    fn byte_request(cmd: u8, poll_index: u8, instruction: IspCommand) -> (request: Request)
        ensures
            request@ == byte_request(cmd, poll_index, instruction),
    {
        Request {
            cmd,
            body: vec![poll_index, instruction.0, instruction.1, instruction.2, instruction.3],
            data_size: 1,
        }
    }

    /// The byte of the chip in an answer.
    fn answered_byte(answer: &Message) -> (byte: u8)
        requires
            answer.body@.len() > DATA_OFFSET,
        ensures
            byte == answer.body@[DATA_OFFSET as int],
    {
        answer.body[DATA_OFFSET]
    }

    /// The request for the fuse byte that an instruction reads.
    fn read_fuse(&self, cmd: IspCommand) -> (request: Request)
        ensures
            request@ == fuse_request(self.prog.specs, cmd),
    {
        Self::byte_request(Isp::ReadFuse.into(), self.prog.specs.fuse_poll_index, cmd)
    }

    /// Asks to erase the chip.
    pub fn erase(&self) -> (dialogue: Dialogue)
        ensures
            dialogue@.fresh(seq![erase_request(self.prog.specs)]),
            dialogue@.well_formed(),
    {
        let erase = chip_erase_instruction();
        let request = Request {
            cmd: Isp::ChipErase.into(),
            body: vec![
                self.prog.specs.erase_delay,
                self.prog.specs.erase_poll_method,
                erase.0,
                erase.1,
                erase.2,
                erase.3,
            ],
            data_size: 0,
        };
        assert(request@ == erase_request(self.prog.specs));
        Dialogue::single(request)
    }

    /// Asks to leave programming mode.
    pub fn close(&self) -> (dialogue: Dialogue)
        ensures
            dialogue@.fresh(seq![leave_request(self.prog.specs)]),
            dialogue@.well_formed(),
    {
        let request = Request {
            cmd: Normal::LeaveIspMode.into(),
            body: vec![self.prog.specs.pre_delay, self.prog.specs.post_delay],
            data_size: 0,
        };
        assert(request@ == leave_request(self.prog.specs));
        Dialogue::single(request)
    }

    /// Asks for the lock byte. `lock_byte` reads the answer.
    pub fn get_lock_byte(&self) -> (dialogue: Dialogue)
        ensures
            dialogue@.fresh(seq![lock_request(self.prog.specs)]),
            dialogue@.well_formed(),
    {
        let request = Self::byte_request(
            Isp::ReadLock.into(),
            self.prog.specs.lock_poll_index,
            read_lock_instruction(),
        );
        Dialogue::single(request)
    }

    /// The lock byte, in the answer to the question for it.
    pub fn lock_byte(answer: &Message) -> (byte: u8)
        requires
            answer.body@.len() > DATA_OFFSET,
        ensures
            byte == answer.body@[DATA_OFFSET as int],
    {
        Self::answered_byte(answer)
    }

    /// Asks for the three fuse bytes. `fuses` reads the answers.
    pub fn get_fuses(&self) -> (dialogue: Dialogue)
        ensures
            dialogue@.fresh(fuse_requests(self.prog.specs)),
            dialogue@.well_formed(),
    {
        let requests = vec![
            self.read_fuse(read_low_fuse_instruction()),
            self.read_fuse(read_high_fuse_instruction()),
            self.read_fuse(read_extended_fuse_instruction()),
        ];
        assert(viewed_requests(requests@) == fuse_requests(self.prog.specs));
        Dialogue::new(requests)
    }

    /// The fuse bytes, in the three answers to the question for them.
    pub fn fuses(answers: &[Message]) -> (fuses: AVRFuse)
        requires
            answers@.len() == 3,
            forall|i: int| 0 <= i < 3 ==> (#[trigger] answers@[i]).body@.len() > DATA_OFFSET,
        ensures
            fuses.low == answers@[0].body@[DATA_OFFSET as int],
            fuses.high == answers@[1].body@[DATA_OFFSET as int],
            fuses.extended == answers@[2].body@[DATA_OFFSET as int],
    {
        AVRFuse {
            low: Self::answered_byte(&answers[0]),
            high: Self::answered_byte(&answers[1]),
            extended: Self::answered_byte(&answers[2]),
        }
    }

    /// Asks for the bytes of the chip's signature. `mcu_signature` reads the answers.
    pub fn get_mcu_signature(&self) -> (dialogue: Dialogue)
        ensures
            dialogue@.fresh(signature_requests(self.prog.specs)),
            dialogue@.well_formed(),
    {
        let mut requests: Vec<Request> = Vec::new();
        let mut addr: u8 = 0;
        let read = read_signature_instruction();
        while addr < 3
            invariant
                addr <= 3,
                read == (0x30u8, 0u8, 0u8, 0u8),
                viewed_requests(requests@) == signature_requests(self.prog.specs).take(
                    addr as int,
                ),
            decreases 3 - addr,
        {
            let ghost before = requests@;
            let request = Self::byte_request(
                Isp::ReadSignature.into(),
                self.prog.specs.signature_poll_index,
                (read.0, read.1, addr, read.3),
            );
            requests.push(request);
            assert(viewed_requests(requests@) == viewed_requests(before).push(request@));
            addr = addr + 1;
        }
        assert(viewed_requests(requests@) == signature_requests(self.prog.specs));
        Dialogue::new(requests)
    }

    /// The signature of the chip, in the three answers to the question for it.
    pub fn mcu_signature(answers: &[Message]) -> (signature: Signature)
        requires
            answers@.len() == 3,
            forall|i: int| 0 <= i < 3 ==> (#[trigger] answers@[i]).body@.len() > DATA_OFFSET,
        ensures
            signature.bytes.0 == answers@[0].body@[DATA_OFFSET as int],
            signature.bytes.1 == answers@[1].body@[DATA_OFFSET as int],
            signature.bytes.2 == answers@[2].body@[DATA_OFFSET as int],
    {
        let mut signature: [u8; 3] = [0;3];
        let mut addr: usize = 0;
        while addr < 3
            invariant
                addr <= 3,
                answers@.len() == 3,
                forall|i: int| 0 <= i < 3 ==> (#[trigger] answers@[i]).body@.len() > DATA_OFFSET,
                forall|i: int|
                    0 <= i < addr ==> signature@[i] == (
                    #[trigger] answers@[i]).body@[DATA_OFFSET as int],
            decreases 3 - addr,
        {
            signature[addr] = Self::answered_byte(&answers[addr]);
            addr = addr + 1;
        }
        Signature { bytes: signature_from(signature) }
    }
}

/// Whatever was answered to `read_flash`, all of it or only the first part, fits in the
/// buffer that it was asked for.
pub proof fn law_flash_answers_fit(dialogue: DialogueView, specs: Specs, start: int, len: int)
    requires
        dialogue.well_formed(),
        dialogue.requests == flash_requests(specs, start, len),
        0 < specs.flash.page_size,
        0 < specs.flash.block_size,
        0 <= len,
    ensures
        pages_fit(dialogue.answers, specs.flash.page_size as int, len),
{
    lemma_pages_fit(
        dialogue,
        Isp::ReadFlash.code(),
        0x20,
        start,
        len,
        specs.flash.block_size as int,
        specs.flash.page_size as int,
        len,
    );
}

/// Whatever was answered to `read_eeprom`, all of it or only the first part, fits in the
/// buffer that it was asked for.
pub proof fn law_eeprom_answers_fit(dialogue: DialogueView, specs: Specs, start: int, len: int)
    requires
        dialogue.well_formed(),
        dialogue.requests == eeprom_requests(specs, start, len),
        0 < specs.eeprom.page_size,
        0 <= len,
    ensures
        pages_fit(dialogue.answers, specs.eeprom.page_size as int, len),
{
    lemma_pages_fit(
        dialogue,
        Isp::ReadEeprom.code(),
        0xa0,
        start,
        start + len,
        specs.eeprom.page_size as int,
        specs.eeprom.page_size as int,
        len,
    );
}

/// What `read_eeprom` puts into the buffer is what the EEPROM holds from `start` on, as far
/// as pages were answered; the bytes behind them stay. When all were answered, these are the
/// whole pages of the buffer, and a buffer of whole pages is filled.
pub proof fn law_read_eeprom_reads_the_memory(
    dialogue: DialogueView,
    specs: Specs,
    start: int,
    bytes: Seq<u8>,
    memory: Seq<u8>,
)
    requires
        dialogue.well_formed(),
        dialogue.requests == eeprom_requests(specs, start, bytes.len() as int),
        0 < specs.eeprom.page_size,
        0 <= start <= memory.len(),
        addresses_fit(
            start,
            specs.eeprom.page_size as int,
            bytes.len() as int / specs.eeprom.page_size as int,
        ),
        answered_from(dialogue, memory, 1, 0x16, 0xa0, specs.eeprom.page_size as int),
    ensures
        ({
            let page_size = specs.eeprom.page_size as int;
            let len = bytes.len() as int;
            let filled = dialogue.answers.len() / 2 * page_size;
            let stored = with_pages(bytes, dialogue.answers, page_size);
            &&& stored.take(filled) == memory.subrange(start, start + filled)
            &&& stored.skip(filled) == bytes.skip(filled)
            &&& dialogue.finished() ==> filled == len / page_size * page_size
            &&& dialogue.finished() && len % page_size == 0 ==> stored == memory.subrange(
                start,
                start + len,
            )
        }),
{
    let page_size = specs.eeprom.page_size as int;
    let len = bytes.len() as int;
    let pages = len / page_size;
    let end = start + len;
    let count = page_count(start, end, page_size, page_size, len);
    let stored = with_pages(bytes, dialogue.answers, page_size);
    lemma_fundamental_div_mod(len, page_size);
    assert(pages * page_size == page_size * pages) by (nonlinear_arith);
    law_pages_that_are_read(start, end, page_size, page_size, len, count);
    assert(pages == count) by {
        if count < pages {
            assert((count + 1) * page_size <= pages * page_size) by (nonlinear_arith)
                requires
                    count < pages,
                    0 < page_size,
            ;
            assert((count + 1) * page_size == count * page_size + page_size) by (nonlinear_arith);
        }
    }
    lemma_pages_come_from_memory(
        dialogue,
        memory,
        1,
        Isp::ReadEeprom.code(),
        0xa0,
        start,
        end,
        page_size,
        page_size,
        bytes,
    );
    if dialogue.finished() && len % page_size == 0 {
        assert(stored.take(len) == stored);
    }
}

/// What `read_flash` puts into the buffer is what the flash memory holds from word `start`
/// on, as far as pages were answered, if a block of words is as large as a page of bytes; the
/// bytes behind them stay. When all were answered and reading started at word 0, a buffer of
/// whole pages is filled.
pub proof fn law_read_flash_reads_the_memory(
    dialogue: DialogueView,
    specs: Specs,
    start: int,
    bytes: Seq<u8>,
    memory: Seq<u8>,
)
    requires
        dialogue.well_formed(),
        dialogue.requests == flash_requests(specs, start, bytes.len() as int),
        0 < specs.flash.block_size,
        specs.flash.page_size == 2 * specs.flash.block_size,
        0 <= 2 * start <= memory.len(),
        addresses_fit(
            start,
            specs.flash.block_size as int,
            page_count(
                start,
                bytes.len() as int,
                specs.flash.block_size as int,
                specs.flash.page_size as int,
                bytes.len() as int,
            ),
        ),
        answered_from(dialogue, memory, 2, 0x14, 0x20, specs.flash.page_size as int),
    ensures
        ({
            let page_size = specs.flash.page_size as int;
            let len = bytes.len() as int;
            let filled = dialogue.answers.len() / 2 * page_size;
            let stored = with_pages(bytes, dialogue.answers, page_size);
            &&& stored.take(filled) == memory.subrange(2 * start, 2 * start + filled)
            &&& stored.skip(filled) == bytes.skip(filled)
            &&& dialogue.finished() ==> filled == page_count(
                start,
                len,
                specs.flash.block_size as int,
                page_size,
                len,
            ) * page_size
            &&& dialogue.finished() && start == 0 && len % page_size == 0 ==> stored
                == memory.take(len)
        }),
{
    let step = specs.flash.block_size as int;
    let page_size = specs.flash.page_size as int;
    let len = bytes.len() as int;
    let count = page_count(start, len, step, page_size, len);
    let stored = with_pages(bytes, dialogue.answers, page_size);
    law_pages_that_are_read(start, len, step, page_size, len, count);
    lemma_pages_come_from_memory(
        dialogue,
        memory,
        2,
        Isp::ReadFlash.code(),
        0x20,
        start,
        len,
        step,
        page_size,
        bytes,
    );
    if dialogue.finished() && start == 0 && len % page_size == 0 {
        let pages = len / page_size;
        lemma_fundamental_div_mod(len, page_size);
        assert(count * page_size == len) by {
            assert(pages * page_size == page_size * pages) by (nonlinear_arith);
            if count < pages {
                assert(count * step < len) by (nonlinear_arith)
                    requires
                        count < pages,
                        0 <= count,
                        len == page_size * pages,
                        page_size == 2 * step,
                        0 < step,
                ;
                assert((count + 1) * page_size <= pages * page_size) by (nonlinear_arith)
                    requires
                        count < pages,
                        0 < page_size,
                ;
            }
        }
        assert(stored.take(len) == stored);
        assert(memory.subrange(0, len) == memory.take(len));
    }
}

/// Once every question for a byte was answered, each answer holds that byte: what `lock_byte`,
/// `fuses`, `mcu_signature`, `param_value` and `programmer_signature` need is there.
pub proof fn law_finished_dialogues_hold_the_bytes_asked_for(dialogue: DialogueView, i: int)
    requires
        dialogue.well_formed(),
        dialogue.finished(),
        0 <= i < dialogue.requests.len(),
        dialogue.requests[i].data_size >= 1,
    ensures
        dialogue.answers[i].body.len() > DATA_OFFSET,
{
    assert(answers(dialogue.requests[i], dialogue.answers[i]));
}

/// A message can hold any request that is made of the programmer or the chip.
pub proof fn law_requests_fit_in_messages(
    specs: Specs,
    param: u8,
    value: u8,
    start: int,
    len: int,
    k: int,
)
    ensures
        fits_in_a_message(set_request(param, value)),
        fits_in_a_message(get_request(param)),
        fits_in_a_message(sign_on_request()),
        fits_in_a_message(enter_request(specs)),
        fits_in_a_message(erase_request(specs)),
        fits_in_a_message(leave_request(specs)),
        fits_in_a_message(lock_request(specs)),
        0 <= k < 3 ==> fits_in_a_message(fuse_requests(specs)[k]),
        0 <= k < 3 ==> fits_in_a_message(signature_requests(specs)[k]),
        0 <= k < flash_requests(specs, start, len).len() ==> fits_in_a_message(
            flash_requests(specs, start, len)[k],
        ),
        0 <= k < eeprom_requests(specs, start, len).len() ==> fits_in_a_message(
            eeprom_requests(specs, start, len)[k],
        ),
{
}

} // verus!
