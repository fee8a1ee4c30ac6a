//! Reading memory page by page.

use crate::bytes::{be16, be32, law_be16_value, law_be32_value, to_be16, to_be32};
use crate::command::Normal;
use crate::dialogue::{
    answers, viewed_messages, viewed_requests, Dialogue, DialogueView, Request, RequestView,
};
use crate::message::{Message, MessageView};
use vstd::arithmetic::div_mod::lemma_fundamental_div_mod;
use vstd::prelude::*;

verus! {

/// How many bytes of an answer stand before its data.
pub const DATA_OFFSET: usize = 2;

/// How many pages are read into a buffer of `len` bytes, where page `i` is at address
/// `start + i * step`: those whose address is below `end` and which fit in the buffer whole.
pub open spec fn page_count(start: int, end: int, step: int, page_size: int, len: int) -> int {
    let addresses = if start < end {
        (end - start - 1) / step + 1
    } else {
        0
    };
    let pages = len / page_size;
    if addresses < pages {
        addresses
    } else {
        pages
    }
}

/// The request that tells the programmer which address is meant next.
pub open spec fn address_request(address: int) -> RequestView {
    RequestView { cmd: Normal::LoadAddress.code(), body: be32(address), data_size: 0 }
}

/// The request for a page at the address that was loaded: its size, and the instruction
/// that reads the memory.
pub open spec fn page_request(cmd: u8, instruction: u8, page_size: int) -> RequestView {
    RequestView { cmd, body: be16(page_size).push(instruction), data_size: page_size as nat }
}

/// The requests for `count` pages: for each one its address, then the page.
pub open spec fn page_requests(
    cmd: u8,
    instruction: u8,
    start: int,
    step: int,
    page_size: int,
    count: int,
) -> Seq<RequestView> {
    Seq::new(
        (2 * count) as nat,
        |k: int|
            if k % 2 == 0 {
                address_request(start + (k / 2) * step)
            } else {
                page_request(cmd, instruction, page_size)
            },
    )
}

/// Buffer `bytes` after the pages among `answers` were put in, one behind the other.
/// Every second answer holds a page.
pub open spec fn with_pages(
    bytes: Seq<u8>,
    answers: Seq<MessageView>,
    page_size: int,
) -> Seq<u8> {
    Seq::new(
        bytes.len(),
        |i: int|
            if i / page_size < answers.len() / 2 {
                answers[2 * (i / page_size) + 1].body[DATA_OFFSET + i % page_size]
            } else {
                bytes[i]
            },
    )
}

/// Every page among `answers` is there as a whole, and the buffer has room for all of them.
pub open spec fn pages_fit(answers: Seq<MessageView>, page_size: int, len: int) -> bool {
    &&& 0 < page_size
    &&& (answers.len() / 2) * page_size <= len
    &&& forall|k: int|
        0 <= k < answers.len() && k % 2 == 1 ==> (#[trigger] answers[k]).body.len() >= DATA_OFFSET
            + page_size
}

/// Page `i` is read exactly if its address is below `end` and the buffer has room for it.
pub proof fn law_pages_that_are_read(
    start: int,
    end: int,
    step: int,
    page_size: int,
    len: int,
    i: int,
)
    requires
        0 < step,
        0 < page_size,
        0 <= len,
        0 <= i,
    ensures
        0 <= page_count(start, end, step, page_size, len),
        i < page_count(start, end, step, page_size, len) <==> start + i * step < end && (i + 1)
            * page_size <= len,
{
    lemma_fundamental_div_mod(len, page_size);
    let pages = len / page_size;
    assert(i < pages <==> (i + 1) * page_size <= len) by (nonlinear_arith)
        requires
            len == page_size * pages + len % page_size,
            0 <= len % page_size < page_size,
            0 < page_size,
    ;
    assert(pages >= 0) by (nonlinear_arith)
        requires
            len == page_size * pages + len % page_size,
            0 <= len % page_size < page_size,
            0 <= len,
    ;
    if start < end {
        let last = end - start - 1;
        lemma_fundamental_div_mod(last, step);
        let steps = last / step;
        assert(i < steps + 1 <==> start + i * step < end) by (nonlinear_arith)
            requires
                last == end - start - 1,
                last == step * steps + last % step,
                0 <= last % step < step,
                0 < step,
        ;
        assert(steps >= 0) by (nonlinear_arith)
            requires
                last == step * steps + last % step,
                0 <= last % step < step,
                0 <= last,
        ;
    } else {
        assert(i * step >= 0) by (nonlinear_arith)
            requires
                0 <= i,
                0 < step,
        ;
    }
}

/// Byte `i` belongs to one of the first `pages` pages exactly if it stands before their end.
pub proof fn lemma_page_of_byte(i: int, page_size: int, pages: int)
    requires
        0 <= i,
        0 < page_size,
    ensures
        i / page_size < pages <==> i < pages * page_size,
        0 <= i / page_size,
        0 <= i % page_size < page_size,
{
    lemma_fundamental_div_mod(i, page_size);
    let page = i / page_size;
    assert(page < pages <==> i < pages * page_size) by (nonlinear_arith)
        requires
            i == page_size * page + i % page_size,
            0 <= i % page_size < page_size,
    ;
    assert(0 <= page) by (nonlinear_arith)
        requires
            i == page_size * page + i % page_size,
            0 <= i % page_size < page_size,
            0 <= i,
    ;
}

/// The requests for all pages whose address is below `end` and which fit in `len` bytes.
pub fn read_pages(
    cmd: u8,
    instruction: u8,
    start: usize,
    end: usize,
    step: usize,
    page_size: usize,
    len: usize,
) -> (dialogue: Dialogue)
    requires
        0 < step,
        0 < page_size,
    ensures
        dialogue@.fresh(
            page_requests(
                cmd,
                instruction,
                start as int,
                step as int,
                page_size as int,
                page_count(
                    start as int,
                    end as int,
                    step as int,
                    page_size as int,
                    len as int,
                ),
            ),
        ),
        dialogue@.well_formed(),
{
    let ghost count = page_count(
        start as int,
        end as int,
        step as int,
        page_size as int,
        len as int,
    );
    let mut requests: Vec<Request> = Vec::new();
    let mut i: usize = 0;
    let mut addr: usize = start;
    let mut room: usize = len;
    let mut more: bool = start < end;
    while more && page_size <= room
        invariant
            0 < step,
            0 < page_size,
            count == page_count(
                start as int,
                end as int,
                step as int,
                page_size as int,
                len as int,
            ),
            room == len - i * page_size,
            more <==> start + i * step < end,
            more ==> addr == start + i * step,
            i <= count,
            viewed_requests(requests@) == page_requests(
                cmd,
                instruction,
                start as int,
                step as int,
                page_size as int,
                i as int,
            ),
        decreases room,
    {
        proof {
            law_pages_that_are_read(
                start as int,
                end as int,
                step as int,
                page_size as int,
                len as int,
                i as int,
            );
            assert((i + 1) * page_size == i * page_size + page_size) by (nonlinear_arith);
            assert((i + 1) * step == i * step + step) by (nonlinear_arith);
            assert(i <= i * page_size) by (nonlinear_arith)
                requires
                    0 < page_size,
            ;
        }
        let address = Request {
            cmd: Normal::LoadAddress.into(),
            body: to_be32(addr),
            data_size: 0,
        };
        let mut body = to_be16(page_size);
        body.push(instruction);
        let page = Request { cmd, body, data_size: page_size };
        let ghost before = requests@;
        requests.push(address);
        requests.push(page);
        proof {
            assert(address@ == address_request(start + i * step));
            assert(page@ == page_request(cmd, instruction, page_size as int));
            assert(viewed_requests(requests@) == viewed_requests(before).push(address@).push(
                page@,
            ));
            assert(viewed_requests(requests@) == page_requests(
                cmd,
                instruction,
                start as int,
                step as int,
                page_size as int,
                i + 1,
            ));
        }
        more = step < end - addr;
        if more {
            addr = addr + step;
        }
        room = room - page_size;
        i = i + 1;
    }
    proof {
        law_pages_that_are_read(
            start as int,
            end as int,
            step as int,
            page_size as int,
            len as int,
            i as int,
        );
        assert((i + 1) * page_size == i * page_size + page_size) by (nonlinear_arith);
    }
    Dialogue::new(requests)
}

/// Puts the pages among the answers into the buffer, one behind the other.
pub fn store_pages(page_size: usize, answers: &[Message], buffer: &mut [u8])
    requires
        pages_fit(viewed_messages(answers@), page_size as int, old(buffer)@.len() as int),
    ensures
        final(buffer)@ == with_pages(
            old(buffer)@,
            viewed_messages(answers@),
            page_size as int,
        ),
{
    let ghost messages = viewed_messages(answers@);
    let ghost stored = with_pages(buffer@, messages, page_size as int);
    let pages: usize = answers.len() / 2;
    assert(0 <= pages * page_size <= buffer.len()) by {
        assert(messages.len() == answers@.len());
        assert(0 <= pages * page_size) by (nonlinear_arith);
    }
    let end: usize = pages * page_size;
    let mut i: usize = 0;
    while i < end
        invariant
            i <= end <= buffer@.len(),
            buffer@.len() == old(buffer)@.len(),
            pages == answers@.len() / 2,
            end == pages * page_size,
            messages == viewed_messages(answers@),
            stored == with_pages(old(buffer)@, messages, page_size as int),
            pages_fit(messages, page_size as int, buffer@.len() as int),
            forall|k: int| 0 <= k < i ==> buffer@[k] == stored[k],
            forall|k: int| i <= k < buffer@.len() ==> buffer@[k] == old(buffer)@[k],
        decreases end - i,
    {
        proof {
            lemma_page_of_byte(i as int, page_size as int, pages as int);
            let page = i as int / page_size as int;
            assert(2 * page + 1 < answers.len());
            assert(messages[2 * page + 1] == answers@[2 * page + 1]@);
            assert(answers@[2 * page + 1].body.len() >= DATA_OFFSET + page_size);
        }
        let page = &answers[2 * (i / page_size) + 1];
        buffer[i] = page.body[DATA_OFFSET + i % page_size];
        i = i + 1;
    }
    assert forall|k: int| 0 <= k < buffer@.len() implies buffer@[k] == stored[k] by {
        lemma_page_of_byte(k, page_size as int, pages as int);
    }
}

/// Pages that were asked for and answered are there as a whole, and fit in the buffer.
pub proof fn lemma_pages_fit(
    dialogue: DialogueView,
    cmd: u8,
    instruction: u8,
    start: int,
    end: int,
    step: int,
    page_size: int,
    len: int,
)
    requires
        dialogue.well_formed(),
        dialogue.requests == page_requests(
            cmd,
            instruction,
            start,
            step,
            page_size,
            page_count(start, end, step, page_size, len),
        ),
        0 < page_size,
        0 < step,
        0 <= len,
    ensures
        pages_fit(dialogue.answers, page_size, len),
{
    let count = page_count(start, end, step, page_size, len);
    law_pages_that_are_read(start, end, step, page_size, len, 0);
    if count > 0 {
        law_pages_that_are_read(start, end, step, page_size, len, count - 1);
    }
    let pages = (dialogue.answers.len() / 2) as int;
    assert(pages <= count);
    assert(pages * page_size <= count * page_size) by (nonlinear_arith)
        requires
            pages <= count,
            0 < page_size,
    ;
    assert forall|k: int| 0 <= k < dialogue.answers.len() && k % 2 == 1 implies (
    #[trigger] dialogue.answers[k]).body.len() >= DATA_OFFSET + page_size by {
        assert(answers(dialogue.requests[k], dialogue.answers[k]));
    }
}

/// The chip has `memory`, and the programmer answers from it: where the request before loads an
/// address, and the request is for command `cmd` with a page size and `instruction`, the answer
/// holds the bytes at that address. An address counts `unit` bytes. Nothing is said of the
/// answers to other requests.
pub open spec fn answered_from(
    dialogue: DialogueView,
    memory: Seq<u8>,
    unit: int,
    cmd: u8,
    instruction: u8,
    page_size: int,
) -> bool {
    forall|k: int|
        #![trigger dialogue.answers[k]]
        0 < k < dialogue.answers.len() && reads_page(
            dialogue.requests[k - 1],
            dialogue.requests[k],
            cmd,
            instruction,
            page_size,
        ) ==> {
            let address = loaded_address(dialogue.requests[k - 1]);
            &&& unit * address + page_size <= memory.len()
            &&& dialogue.answers[k].body.subrange(
                DATA_OFFSET as int,
                DATA_OFFSET + page_size,
            ) == memory.subrange(unit * address, unit * address + page_size)
        }
}

/// The address that the four bytes of a request state, the most significant one first.
pub open spec fn loaded_address(request: RequestView) -> int {
    request.body[0] * 0x100_0000 + request.body[1] * 0x1_0000 + request.body[2] * 0x100
        + request.body[3]
}

/// Two requests read a page: the first is command 06 with four bytes of address, the second is
/// command `cmd` with two bytes of page size and the instruction.
pub open spec fn reads_page(
    first: RequestView,
    second: RequestView,
    cmd: u8,
    instruction: u8,
    page_size: int,
) -> bool {
    &&& first.cmd == 0x06
    &&& first.body.len() == 4
    &&& second.cmd == cmd
    &&& second.body.len() == 3
    &&& second.body[0] * 0x100 + second.body[1] == page_size % 0x1_0000
    &&& second.body[2] == instruction
}

/// The addresses of `count` pages can be sent: they have no more than 32 bits.
pub open spec fn addresses_fit(start: int, step: int, count: int) -> bool {
    count > 0 ==> start + (count - 1) * step < 0x1_0000_0000
}

/// Where byte `i` of a buffer comes from, if the pages that were read lie one behind the
/// other in memory.
proof fn lemma_byte_comes_from_memory(
    dialogue: DialogueView,
    memory: Seq<u8>,
    unit: int,
    cmd: u8,
    instruction: u8,
    start: int,
    step: int,
    page_size: int,
    count: int,
    bytes: Seq<u8>,
    i: int,
)
    requires
        dialogue.well_formed(),
        dialogue.requests == page_requests(cmd, instruction, start, step, page_size, count),
        0 < page_size,
        0 < step,
        page_size == unit * step,
        0 <= start,
        0 <= count,
        addresses_fit(start, step, count),
        answered_from(dialogue, memory, unit, cmd, instruction, page_size),
        0 <= i < dialogue.answers.len() / 2 * page_size,
        i < bytes.len(),
    ensures
        unit * start + i < memory.len(),
        with_pages(bytes, dialogue.answers, page_size)[i] == memory[unit * start + i],
{
    lemma_page_of_byte(i, page_size, (dialogue.answers.len() / 2) as int);
    lemma_fundamental_div_mod(i, page_size);
    let page = i / page_size;
    let address = start + page * step;
    let k = 2 * page + 1;
    assert(page < count);
    assert(dialogue.requests[k - 1] == address_request(address));
    assert(dialogue.requests[k] == page_request(cmd, instruction, page_size));
    assert(0 <= page * step <= (count - 1) * step) by (nonlinear_arith)
        requires
            0 <= page <= count - 1,
            0 < step,
    ;
    assert(unit * address == unit * start + page_size * page) by (nonlinear_arith)
        requires
            address == start + page * step,
            page_size == unit * step,
    ;
    assert(0 <= unit * address) by (nonlinear_arith)
        requires
            0 <= address,
            0 < page_size,
            0 < step,
            page_size == unit * step,
    ;
    law_be32_value(address);
    law_be16_value(page_size);
    assert(loaded_address(dialogue.requests[k - 1]) == address);
    assert(reads_page(
        dialogue.requests[k - 1],
        dialogue.requests[k],
        cmd,
        instruction,
        page_size,
    ));
    let data = dialogue.answers[k].body.subrange(DATA_OFFSET as int, DATA_OFFSET + page_size);
    assert(answers(dialogue.requests[k], dialogue.answers[k]));
    assert(data == memory.subrange(unit * address, unit * address + page_size));
    assert(data[i % page_size] == dialogue.answers[k].body[DATA_OFFSET + i % page_size]);
    assert(data[i % page_size] == memory[unit * address + i % page_size]);
}

/// What the pages that were answered put into a buffer, if they lie one behind the other in
/// memory: what is there from the first address on. The bytes behind them stay.
pub proof fn lemma_pages_come_from_memory(
    dialogue: DialogueView,
    memory: Seq<u8>,
    unit: int,
    cmd: u8,
    instruction: u8,
    start: int,
    end: int,
    step: int,
    page_size: int,
    bytes: Seq<u8>,
)
    requires
        dialogue.well_formed(),
        dialogue.requests == page_requests(
            cmd,
            instruction,
            start,
            step,
            page_size,
            page_count(start, end, step, page_size, bytes.len() as int),
        ),
        0 < unit,
        0 < page_size,
        0 < step,
        page_size == unit * step,
        0 <= start,
        unit * start <= memory.len(),
        addresses_fit(
            start,
            step,
            page_count(start, end, step, page_size, bytes.len() as int),
        ),
        answered_from(dialogue, memory, unit, cmd, instruction, page_size),
    ensures
        ({
            let filled = dialogue.answers.len() / 2 * page_size;
            let stored = with_pages(bytes, dialogue.answers, page_size);
            &&& stored.take(filled) == memory.subrange(unit * start, unit * start + filled)
            &&& stored.skip(filled) == bytes.skip(filled)
        }),
{
    let len = bytes.len() as int;
    let count = page_count(start, end, step, page_size, len);
    let pages = (dialogue.answers.len() / 2) as int;
    let filled = pages * page_size;
    let first = unit * start;
    let stored = with_pages(bytes, dialogue.answers, page_size);
    law_pages_that_are_read(start, end, step, page_size, len, 0);
    lemma_pages_fit(dialogue, cmd, instruction, start, end, step, page_size, len);
    assert(0 <= filled) by (nonlinear_arith)
        requires
            filled == pages * page_size,
            0 <= pages,
            0 < page_size,
    ;
    assert(0 <= first) by (nonlinear_arith)
        requires
            first == unit * start,
            0 <= start,
            0 < unit,
    ;
    assert forall|i: int| 0 <= i < filled implies stored[i] == memory[first + i] && first + i
        < memory.len() by {
        lemma_byte_comes_from_memory(
            dialogue,
            memory,
            unit,
            cmd,
            instruction,
            start,
            step,
            page_size,
            count,
            bytes,
            i,
        );
    }
    assert forall|i: int| filled <= i < len implies stored[i] == bytes[i] by {
        lemma_page_of_byte(i, page_size, pages);
    }
    if filled > 0 {
        assert(stored[filled - 1] == memory[first + filled - 1]);
    }
    assert(stored.take(filled) == memory.subrange(first, first + filled));
    assert(stored.skip(filled) == bytes.skip(filled));
}

} // verus!
