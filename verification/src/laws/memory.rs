//! Reading flash memory and EEPROM.

use crate::bytes::{law_be16_value, law_be32_value};
use crate::dialogue::{viewed_messages, Dialogue, DialogueView, RequestView};
use crate::isp::{
    law_eeprom_answers_fit, law_flash_answers_fit, law_read_eeprom_reads_the_memory,
    law_read_flash_reads_the_memory, IspMode,
};
use crate::laws::requests::waits;
use crate::message::Message;
use crate::pages::{
    address_request, answered_from, law_pages_that_are_read, lemma_page_of_byte, page_count,
    page_request, pages_fit, read_pages, store_pages, with_pages,
};
use vstd::arithmetic::div_mod::{
    lemma_fundamental_div_mod, lemma_fundamental_div_mod_converse,
};
use vstd::prelude::*;

verus! {

/// A request loads an address: 06 and the four low bytes of the address, the most significant
/// one first.
pub open spec fn loads(request: RequestView, address: int) -> bool {
    &&& request.cmd == 0x06
    &&& request.body.len() == 4
    &&& request.body[0] * 0x100_0000 + request.body[1] * 0x1_0000 + request.body[2] * 0x100
        + request.body[3] == address % 0x1_0000_0000
    &&& request.data_size == 0
}

/// A request is for a page: a command, the two low bytes of the page size, the more significant
/// one first, and an instruction. The answer has to carry the page.
pub open spec fn fetches(request: RequestView, cmd: u8, page_size: int, instruction: u8) -> bool {
    &&& request.cmd == cmd
    &&& request.body.len() == 3
    &&& request.body[0] * 0x100 + request.body[1] == page_size % 0x1_0000
    &&& request.body[2] == instruction
    &&& request.data_size == page_size
}

/// Pages of any kind can be asked for, if they are not empty and addresses go on. Page `i` is
/// asked for exactly if its address, `start` and `i` steps, is below the end, and it fits in the
/// length whole. Then its address is loaded, and the command and instruction that were given ask
/// for a page.
pub proof fn law_asking_for_pages(
    cmd: u8,
    instruction: u8,
    start: usize,
    end: usize,
    step: usize,
    page_size: usize,
    len: usize,
    dialogue: Dialogue,
    i: int,
)
    requires
        0 < step,
        0 < page_size,
        call_ensures(read_pages, (cmd, instruction, start, end, step, page_size, len), dialogue),
        0 <= i,
    ensures
        call_requires(read_pages, (cmd, instruction, start, end, step, page_size, len)),
        waits(dialogue, dialogue@.requests.len() as int),
        dialogue@.requests.len() % 2 == 0,
        2 * i < dialogue@.requests.len() <==> start + i * step < end && (i + 1) * page_size
            <= len,
        2 * i < dialogue@.requests.len() ==> {
            &&& loads(dialogue@.requests[2 * i], start + i * step)
            &&& fetches(dialogue@.requests[2 * i + 1], cmd, page_size as int, instruction)
        },
{
    law_pages_that_are_read(
        start as int,
        end as int,
        step as int,
        page_size as int,
        len as int,
        i,
    );
    if 2 * i < dialogue@.requests.len() {
        assert(0 <= i * step) by (nonlinear_arith)
            requires
                0 <= i,
                0 < step,
        ;
        assert(dialogue@.requests[2 * i] == address_request(start + i * step));
        assert(dialogue@.requests[2 * i + 1] == page_request(
            cmd,
            instruction,
            page_size as int,
        ));
        law_be32_value(start + i * step);
        law_be16_value(page_size as int);
    }
}

/// Flash can be read from any word and into any length, if the chip has pages and blocks. Page
/// `i` is asked for exactly if its address, `start` and `i` blocks, is below the length, and it
/// fits in the length whole. Then its address is loaded, and command 14 with instruction 20
/// asks for a page.
pub proof fn law_asking_for_flash(
    mode: &IspMode,
    start: usize,
    len: usize,
    dialogue: Dialogue,
    i: int,
)
    requires
        0 < mode.prog.specs.flash.page_size,
        0 < mode.prog.specs.flash.block_size,
        call_ensures(IspMode::read_flash, (mode, start, len), dialogue),
        0 <= i,
    ensures
        call_requires(IspMode::read_flash, (mode, start, len)),
        waits(dialogue, dialogue@.requests.len() as int),
        dialogue@.requests.len() % 2 == 0,
        2 * i < dialogue@.requests.len() <==> start + i * mode.prog.specs.flash.block_size < len
            && (i + 1) * mode.prog.specs.flash.page_size <= len,
        2 * i < dialogue@.requests.len() ==> {
            &&& loads(
                dialogue@.requests[2 * i],
                start + i * mode.prog.specs.flash.block_size,
            )
            &&& fetches(
                dialogue@.requests[2 * i + 1],
                0x14,
                mode.prog.specs.flash.page_size as int,
                0x20,
            )
        },
{
    let step = mode.prog.specs.flash.block_size as int;
    let page_size = mode.prog.specs.flash.page_size as int;
    law_pages_that_are_read(start as int, len as int, step, page_size, len as int, i);
    if 2 * i < dialogue@.requests.len() {
        assert(0 <= i * step) by (nonlinear_arith)
            requires
                0 <= i,
                0 < step,
        ;
        assert(dialogue@.requests[2 * i] == address_request(start + i * step));
        assert(dialogue@.requests[2 * i + 1] == page_request(0x14, 0x20, page_size));
        law_be32_value(start + i * step);
        law_be16_value(page_size);
    }
}

/// EEPROM can be read from any byte and into any length, if the chip has pages and the addresses
/// fit in a `usize`. Page `i` is asked for exactly if it fits in the length whole. Then its
/// address, `start` and `i` pages, is loaded, and command 16 with instruction A0 asks for a
/// page.
pub proof fn law_asking_for_eeprom(
    mode: &IspMode,
    start: usize,
    len: usize,
    dialogue: Dialogue,
    i: int,
)
    requires
        0 < mode.prog.specs.eeprom.page_size,
        start + len <= usize::MAX,
        call_ensures(IspMode::read_eeprom, (mode, start, len), dialogue),
        0 <= i,
    ensures
        call_requires(IspMode::read_eeprom, (mode, start, len)),
        waits(dialogue, dialogue@.requests.len() as int),
        dialogue@.requests.len() % 2 == 0,
        2 * i < dialogue@.requests.len() <==> (i + 1) * mode.prog.specs.eeprom.page_size <= len,
        2 * i < dialogue@.requests.len() ==> {
            &&& loads(
                dialogue@.requests[2 * i],
                start + i * mode.prog.specs.eeprom.page_size,
            )
            &&& fetches(
                dialogue@.requests[2 * i + 1],
                0x16,
                mode.prog.specs.eeprom.page_size as int,
                0xA0,
            )
        },
{
    let page_size = mode.prog.specs.eeprom.page_size as int;
    law_pages_that_are_read(
        start as int,
        start + len,
        page_size,
        page_size,
        len as int,
        i,
    );
    assert((i + 1) * page_size == i * page_size + page_size) by (nonlinear_arith);
    if 2 * i < dialogue@.requests.len() {
        assert(0 <= i * page_size) by (nonlinear_arith)
            requires
                0 <= i,
                0 < page_size,
        ;
        assert(dialogue@.requests[2 * i] == address_request(start + i * page_size));
        assert(dialogue@.requests[2 * i + 1] == page_request(0x16, 0xA0, page_size));
        law_be32_value(start + i * page_size);
        law_be16_value(page_size);
    }
}

/// The data of page answer `page` becomes page `page` of the buffer.
proof fn lemma_page_is_stored(
    bytes: Seq<u8>,
    answers: Seq<Message>,
    page_size: int,
    page: int,
)
    requires
        0 < page_size,
        0 <= page < answers.len() / 2,
        (page + 1) * page_size <= bytes.len(),
        answers[2 * page + 1].body@.len() >= 2 + page_size,
    ensures
        with_pages(bytes, viewed_messages(answers), page_size).subrange(
            page * page_size,
            (page + 1) * page_size,
        ) == answers[2 * page + 1].body@.subrange(2, 2 + page_size),
{
    let stored = with_pages(bytes, viewed_messages(answers), page_size);
    let first = page * page_size;
    let data = answers[2 * page + 1].body@.subrange(2, 2 + page_size);
    assert((page + 1) * page_size == first + page_size) by (nonlinear_arith)
        requires
            first == page * page_size,
    ;
    assert(0 <= first) by (nonlinear_arith)
        requires
            first == page * page_size,
            0 <= page,
            0 < page_size,
    ;
    assert(viewed_messages(answers)[2 * page + 1] == answers[2 * page + 1]@);
    assert forall|j: int| 0 <= j < page_size implies stored[first + j] == data[j] by {
        lemma_fundamental_div_mod_converse(first + j, page_size, page, j);
    }
    assert(stored.subrange(first, first + page_size) == data);
}

/// Bytes behind the last page that was answered stay.
proof fn lemma_rest_stays(bytes: Seq<u8>, answers: Seq<Message>, page_size: int, i: int)
    requires
        0 < page_size,
        answers.len() / 2 * page_size <= i < bytes.len(),
        0 <= i,
    ensures
        with_pages(bytes, viewed_messages(answers), page_size)[i] == bytes[i],
{
    lemma_page_of_byte(i, page_size, (answers.len() / 2) as int);
}

/// Every second answer is a page, and page after page fills the buffer from its start: page
/// `page` of the buffer is what stands behind the first two bytes of its answer. Bytes behind the
/// last page stay, and the buffer keeps its length. This holds for any answers that hold whole
/// pages, if the buffer has room for them.
pub proof fn law_pages_are_stored(
    page_size: usize,
    answers: &[Message],
    buffer: &mut [u8],
    page: int,
    i: int,
)
    requires
        call_ensures(store_pages, (page_size, answers, buffer), ()),
        0 < page_size,
        answers@.len() as int / 2 * page_size as int <= old(buffer)@.len(),
        forall|k: int|
            #![trigger answers@[k]]
            0 <= k < answers@.len() && k % 2 == 1 ==> answers@[k].body@.len() >= 2 + page_size,
    ensures
        call_requires(store_pages, (page_size, answers, buffer)),
        final(buffer)@.len() == old(buffer)@.len(),
        0 <= page < answers@.len() / 2 ==> final(buffer)@.subrange(
            page * page_size,
            (page + 1) * page_size,
        ) == answers@[2 * page + 1].body@.subrange(2, 2 + page_size),
        answers@.len() as int / 2 * page_size as int <= i
            < old(buffer)@.len() ==> final(buffer)@[i] == old(buffer)@[i],
{
    lemma_stored(answers@, old(buffer)@, page_size as int, page, i);
}

/// Flash goes into the buffer page by page, a page being as large as the chip's flash pages.
pub proof fn law_flash_pages_are_stored(
    mode: &IspMode,
    answers: &[Message],
    buffer: &mut [u8],
    page: int,
    i: int,
)
    requires
        call_ensures(IspMode::store_flash, (mode, answers, buffer), ()),
        0 < mode.prog.specs.flash.page_size,
        answers@.len() as int / 2 * mode.prog.specs.flash.page_size as int
            <= old(buffer)@.len(),
        forall|k: int|
            #![trigger answers@[k]]
            0 <= k < answers@.len() && k % 2 == 1 ==> answers@[k].body@.len() >= 2
                + mode.prog.specs.flash.page_size,
    ensures
        call_requires(IspMode::store_flash, (mode, answers, buffer)),
        final(buffer)@.len() == old(buffer)@.len(),
        0 <= page < answers@.len() / 2 ==> final(buffer)@.subrange(
            page * mode.prog.specs.flash.page_size,
            (page + 1) * mode.prog.specs.flash.page_size,
        ) == answers@[2 * page + 1].body@.subrange(2, 2 + mode.prog.specs.flash.page_size),
        answers@.len() as int / 2 * mode.prog.specs.flash.page_size as int <= i
            < old(buffer)@.len() ==> final(buffer)@[i] == old(buffer)@[i],
{
    let page_size = mode.prog.specs.flash.page_size as int;
    lemma_stored(answers@, old(buffer)@, page_size, page, i);
}

/// EEPROM goes into the buffer page by page, a page being as large as the chip's EEPROM pages.
pub proof fn law_eeprom_pages_are_stored(
    mode: &IspMode,
    answers: &[Message],
    buffer: &mut [u8],
    page: int,
    i: int,
)
    requires
        call_ensures(IspMode::store_eeprom, (mode, answers, buffer), ()),
        0 < mode.prog.specs.eeprom.page_size,
        answers@.len() as int / 2 * mode.prog.specs.eeprom.page_size as int
            <= old(buffer)@.len(),
        forall|k: int|
            #![trigger answers@[k]]
            0 <= k < answers@.len() && k % 2 == 1 ==> answers@[k].body@.len() >= 2
                + mode.prog.specs.eeprom.page_size,
    ensures
        call_requires(IspMode::store_eeprom, (mode, answers, buffer)),
        final(buffer)@.len() == old(buffer)@.len(),
        0 <= page < answers@.len() / 2 ==> final(buffer)@.subrange(
            page * mode.prog.specs.eeprom.page_size,
            (page + 1) * mode.prog.specs.eeprom.page_size,
        ) == answers@[2 * page + 1].body@.subrange(2, 2 + mode.prog.specs.eeprom.page_size),
        answers@.len() as int / 2 * mode.prog.specs.eeprom.page_size as int <= i
            < old(buffer)@.len() ==> final(buffer)@[i] == old(buffer)@[i],
{
    let page_size = mode.prog.specs.eeprom.page_size as int;
    lemma_stored(answers@, old(buffer)@, page_size, page, i);
}

/// What both kinds of memory have in common.
proof fn lemma_stored(
    answers: Seq<Message>,
    bytes: Seq<u8>,
    page_size: int,
    page: int,
    i: int,
)
    requires
        0 < page_size,
        answers.len() as int / 2 * page_size <= bytes.len(),
        forall|k: int|
            #![trigger answers[k]]
            0 <= k < answers.len() && k % 2 == 1 ==> answers[k].body@.len() >= 2 + page_size,
    ensures
        pages_fit(viewed_messages(answers), page_size, bytes.len() as int),
        ({
            let stored = with_pages(bytes, viewed_messages(answers), page_size);
            &&& stored.len() == bytes.len()
            &&& 0 <= page < answers.len() / 2 ==> stored.subrange(
                page * page_size,
                (page + 1) * page_size,
            ) == answers[2 * page + 1].body@.subrange(2, 2 + page_size)
            &&& answers.len() as int / 2 * page_size <= i < bytes.len() ==> stored[i] == bytes[i]
        }),
{
    let messages = viewed_messages(answers);
    let pages = answers.len() as int / 2;
    assert forall|k: int| 0 <= k < messages.len() && k % 2 == 1 implies (
    #[trigger] messages[k]).body.len() >= 2 + page_size by {
        assert(messages[k] == answers[k]@);
    }
    assert(0 <= pages * page_size) by (nonlinear_arith)
        requires
            0 <= pages,
            0 < page_size,
    ;
    if 0 <= page < pages {
        assert((page + 1) * page_size <= pages * page_size) by (nonlinear_arith)
            requires
                page + 1 <= pages,
                0 < page_size,
        ;
        lemma_page_is_stored(bytes, answers, page_size, page);
    }
    if pages * page_size <= i < bytes.len() {
        lemma_rest_stays(bytes, answers, page_size, i);
    }
}

/// To read flash is to get what it holds. Ask for it, answer as far as you come from the chip's
/// flash, store the answers: the buffer starts with the flash from word `start` on, as many pages
/// as were answered, and is unchanged behind them. All of it is filled when every request was
/// answered, reading started at word 0, and the buffer is made of whole pages. This is for chips
/// whose blocks of words are as large as their pages, and addresses of 32 bits.
pub proof fn law_reading_flash_gives_its_contents(
    mode: &IspMode,
    start: usize,
    asked: Dialogue,
    dialogue: DialogueView,
    answers: &[Message],
    buffer: &mut [u8],
    memory: Seq<u8>,
)
    requires
        0 < mode.prog.specs.flash.block_size,
        mode.prog.specs.flash.page_size == 2 * mode.prog.specs.flash.block_size,
        2 * start <= memory.len(),
        old(buffer)@.len() <= 0x1_0000_0000,
        call_ensures(IspMode::read_flash, (mode, start, old(buffer)@.len() as usize), asked),
        old(buffer)@.len() <= usize::MAX,
        dialogue.well_formed(),
        dialogue.requests == asked@.requests,
        dialogue.answers == viewed_messages(answers@),
        answered_from(
            dialogue,
            memory,
            2,
            0x14,
            0x20,
            mode.prog.specs.flash.page_size as int,
        ),
        call_ensures(IspMode::store_flash, (mode, answers, buffer), ()),
    ensures
        call_requires(IspMode::store_flash, (mode, answers, buffer)),
        ({
            let page_size = mode.prog.specs.flash.page_size as int;
            let filled = answers@.len() as int / 2 * page_size;
            &&& final(buffer)@.len() == old(buffer)@.len()
            &&& final(buffer)@.take(filled) == memory.subrange(2 * start, 2 * start + filled)
            &&& final(buffer)@.skip(filled) == old(buffer)@.skip(filled)
            &&& answers@.len() == asked@.requests.len() && start == 0 && old(buffer)@.len() as int
                % page_size == 0 ==> final(buffer)@ == memory.take(old(buffer)@.len() as int)
        }),
{
    let specs = mode.prog.specs;
    let len = old(buffer)@.len() as int;
    let step = specs.flash.block_size as int;
    let page_size = specs.flash.page_size as int;
    let count = page_count(start as int, len, step, page_size, len);
    law_flash_answers_fit(dialogue, specs, start as int, len);
    if count > 0 {
        law_pages_that_are_read(start as int, len, step, page_size, len, count - 1);
    }
    law_read_flash_reads_the_memory(dialogue, specs, start as int, old(buffer)@, memory);
}

/// To read EEPROM is to get what it holds. Ask for it, answer as far as you come from the chip's
/// EEPROM, store the answers: the buffer starts with the EEPROM from byte `start` on, as many
/// pages as were answered, and is unchanged behind them. All of it is filled when every request
/// was answered and the buffer is made of whole pages. This is for addresses of 32 bits.
pub proof fn law_reading_eeprom_gives_its_contents(
    mode: &IspMode,
    start: usize,
    asked: Dialogue,
    dialogue: DialogueView,
    answers: &[Message],
    buffer: &mut [u8],
    memory: Seq<u8>,
)
    requires
        0 < mode.prog.specs.eeprom.page_size,
        start <= memory.len(),
        start + old(buffer)@.len() <= 0x1_0000_0000,
        start + old(buffer)@.len() <= usize::MAX,
        call_ensures(IspMode::read_eeprom, (mode, start, old(buffer)@.len() as usize), asked),
        dialogue.well_formed(),
        dialogue.requests == asked@.requests,
        dialogue.answers == viewed_messages(answers@),
        answered_from(
            dialogue,
            memory,
            1,
            0x16,
            0xA0,
            mode.prog.specs.eeprom.page_size as int,
        ),
        call_ensures(IspMode::store_eeprom, (mode, answers, buffer), ()),
    ensures
        call_requires(IspMode::store_eeprom, (mode, answers, buffer)),
        ({
            let page_size = mode.prog.specs.eeprom.page_size as int;
            let len = old(buffer)@.len() as int;
            let filled = answers@.len() as int / 2 * page_size;
            &&& final(buffer)@.len() == len
            &&& final(buffer)@.take(filled) == memory.subrange(start as int, start + filled)
            &&& final(buffer)@.skip(filled) == old(buffer)@.skip(filled)
            &&& answers@.len() == asked@.requests.len() && len % page_size == 0 ==> final(buffer)@ == memory.subrange(start as int, start + len)
        }),
{
    let specs = mode.prog.specs;
    let len = old(buffer)@.len() as int;
    let page_size = specs.eeprom.page_size as int;
    let pages = len / page_size;
    law_eeprom_answers_fit(dialogue, specs, start as int, len);
    lemma_fundamental_div_mod(len, page_size);
    assert((pages - 1) * page_size < len || pages == 0) by (nonlinear_arith)
        requires
            len == page_size * pages + len % page_size,
            0 <= len % page_size < page_size,
    ;
    law_read_eeprom_reads_the_memory(dialogue, specs, start as int, old(buffer)@, memory);
}

} // verus!
