//! What is asked of the programmer, byte by byte.

use crate::avr::Specs;
use crate::dialogue::{Dialogue, RequestView};
use crate::isp::IspMode;
use crate::param::{law_param_codes_are_distinct, Readable, Writable, RO, RW};
use crate::port::{CharSize, FlowControl, LineSettings, Parity, StopBits};
use crate::programmer::STK500v2;
use vstd::prelude::*;
use vstd::std_specs::convert::IntoSpec;

verus! {

/// A request has this command and body, and its answer has to carry so many bytes of data.
pub open spec fn asks(request: RequestView, cmd: u8, body: Seq<u8>, data_size: int) -> bool {
    &&& request.cmd == cmd
    &&& request.body == body
    &&& request.data_size == data_size
}

/// Nothing was sent yet, and so many requests wait.
pub open spec fn waits(dialogue: Dialogue, requests: int) -> bool {
    &&& dialogue@.well_formed()
    &&& dialogue@.requests.len() == requests
    &&& dialogue@.answers.len() == 0
    &&& dialogue@.pending is None
    &&& dialogue@.error is None
}

/// The line runs at 115200 baud with 8 bits, no parity, one stop bit, no flow control and a
/// timeout of a second; numbering starts at zero, for any chip.
pub proof fn law_opening(specs: Specs, line: LineSettings, programmer: STK500v2)
    requires
        call_ensures(STK500v2::open, (specs,), (line, programmer)),
    ensures
        call_requires(STK500v2::open, (specs,)),
        line.baud_rate == 115200,
        line.char_size == CharSize::Bits8,
        line.parity == Parity::ParityNone,
        line.stop_bits == StopBits::Stop1,
        line.flow_control == FlowControl::FlowNone,
        line.timeout_secs == 1,
        programmer.sequencer.count == 0,
        programmer.specs == specs,
{
}

/// To set any parameter to any value is to send 02, the parameter's code and the value.
pub proof fn law_setting_a_parameter<T: Writable + Into<u8>>(
    programmer: &STK500v2,
    param: T,
    value: u8,
    dialogue: Dialogue,
)
    requires
        call_ensures(STK500v2::set_param::<T>, (programmer, param, value), dialogue),
    ensures
        call_requires(STK500v2::set_param::<T>, (programmer, param, value)),
        waits(dialogue, 1),
        dialogue@.requests[0].body.len() == 2,
        call_ensures(<T as Into<u8>>::into, (param,), dialogue@.requests[0].body[0]),
        T::obeys_into_spec() ==> dialogue@.requests[0].body[0] == param.into_spec(),
        asks(
            dialogue@.requests[0],
            0x02,
            seq![dialogue@.requests[0].body[0], value],
            0,
        ),
{
}

/// To ask for any parameter is to send 03 and the parameter's code. The answer has to carry a
/// byte.
pub proof fn law_asking_for_a_parameter<T: Readable + Into<u8>>(
    programmer: &STK500v2,
    param: T,
    dialogue: Dialogue,
)
    requires
        call_ensures(STK500v2::get_param::<T>, (programmer, param), dialogue),
    ensures
        call_requires(STK500v2::get_param::<T>, (programmer, param)),
        waits(dialogue, 1),
        dialogue@.requests[0].body.len() == 1,
        call_ensures(<T as Into<u8>>::into, (param,), dialogue@.requests[0].body[0]),
        T::obeys_into_spec() ==> dialogue@.requests[0].body[0] == param.into_spec(),
        asks(dialogue@.requests[0], 0x03, seq![dialogue@.requests[0].body[0]], 1),
{
}

/// Requests for different parameters of the programmer differ.
pub proof fn law_requests_tell_parameters_apart(
    programmer: &STK500v2,
    first: RW,
    second: RW,
    third: RO,
    value: u8,
    one: Dialogue,
    two: Dialogue,
    three: Dialogue,
    four: Dialogue,
)
    requires
        call_ensures(STK500v2::set_param::<RW>, (programmer, first, value), one),
        call_ensures(STK500v2::set_param::<RW>, (programmer, second, value), two),
        call_ensures(STK500v2::get_param::<RW>, (programmer, first), three),
        call_ensures(STK500v2::get_param::<RO>, (programmer, third), four),
    ensures
        one@.requests == two@.requests ==> first == second,
        one@.requests[0].body[0] == three@.requests[0].body[0],
        three@.requests != four@.requests,
{
    law_setting_a_parameter(programmer, first, value, one);
    law_setting_a_parameter(programmer, second, value, two);
    law_asking_for_a_parameter(programmer, first, three);
    law_asking_for_a_parameter(programmer, third, four);
    assert(one@.requests[0].body[0] == first.code());
    assert(two@.requests[0].body[0] == second.code());
    assert(three@.requests[0].body[0] == first.code());
    assert(four@.requests[0].body[0] == third.code());
    law_param_codes_are_distinct(third, third, first, second);
}

/// To ask for the programmer's name is to send 01 and nothing else.
pub proof fn law_asking_for_the_name(programmer: &STK500v2, dialogue: Dialogue)
    requires
        call_ensures(STK500v2::read_programmer_signature, (programmer,), dialogue),
    ensures
        call_requires(STK500v2::read_programmer_signature, (programmer,)),
        waits(dialogue, 1),
        asks(dialogue@.requests[0], 0x01, seq![], 1),
{
}

/// To enter programming mode is to set parameter 9E to the chip's reset polarity, as 1 or 0, and
/// then to send 10, the chip's timeout, stabilisation delay, command delay, synchronisation
/// loops, byte delay, poll value and poll index, and the instruction AC 53 00 00.
pub proof fn law_entering_programming_mode(programmer: &STK500v2, dialogue: Dialogue)
    requires
        call_ensures(STK500v2::enter_isp_mode, (programmer,), dialogue),
    ensures
        call_requires(STK500v2::enter_isp_mode, (programmer,)),
        waits(dialogue, 2),
        programmer.specs.reset_polarity ==> asks(dialogue@.requests[0], 0x02, seq![0x9E, 1], 0),
        !programmer.specs.reset_polarity ==> asks(dialogue@.requests[0], 0x02, seq![0x9E, 0], 0),
        asks(
            dialogue@.requests[1],
            0x10,
            seq![
                programmer.specs.timeout,
                programmer.specs.stab_delay,
                programmer.specs.cmd_exe_delay,
                programmer.specs.synch_loops,
                programmer.specs.byte_delay,
                programmer.specs.pool_value,
                programmer.specs.pool_index,
                0xAC,
                0x53,
                0x00,
                0x00,
            ],
            0,
        ),
{
}

/// Programming mode keeps the programmer that entered it.
pub proof fn law_programming_mode_keeps_the_programmer(programmer: STK500v2, mode: IspMode)
    requires
        call_ensures(IspMode::new, (programmer,), mode),
    ensures
        call_requires(IspMode::new, (programmer,)),
        mode.prog.sequencer.count == programmer.sequencer.count,
        mode.prog.specs == programmer.specs,
{
}

/// To erase the chip is to send 12, the chip's erase delay and poll method, and the instruction
/// AC 80 00 00.
pub proof fn law_erasing(mode: &IspMode, dialogue: Dialogue)
    requires
        call_ensures(IspMode::erase, (mode,), dialogue),
    ensures
        call_requires(IspMode::erase, (mode,)),
        waits(dialogue, 1),
        asks(
            dialogue@.requests[0],
            0x12,
            seq![
                mode.prog.specs.erase_delay,
                mode.prog.specs.erase_poll_method,
                0xAC,
                0x80,
                0x00,
                0x00,
            ],
            0,
        ),
{
}

/// To leave programming mode is to send 11 and the chip's delays, the one before first.
pub proof fn law_leaving_programming_mode(mode: &IspMode, dialogue: Dialogue)
    requires
        call_ensures(IspMode::close, (mode,), dialogue),
    ensures
        call_requires(IspMode::close, (mode,)),
        waits(dialogue, 1),
        asks(
            dialogue@.requests[0],
            0x11,
            seq![mode.prog.specs.pre_delay, mode.prog.specs.post_delay],
            0,
        ),
{
}

/// To ask for the lock byte is to send 1A, the chip's poll index for it, and the instruction
/// 58 00 00 00.
pub proof fn law_asking_for_the_lock_byte(mode: &IspMode, dialogue: Dialogue)
    requires
        call_ensures(IspMode::get_lock_byte, (mode,), dialogue),
    ensures
        call_requires(IspMode::get_lock_byte, (mode,)),
        waits(dialogue, 1),
        asks(
            dialogue@.requests[0],
            0x1A,
            seq![mode.prog.specs.lock_poll_index, 0x58, 0x00, 0x00, 0x00],
            1,
        ),
{
}

/// To ask for the fuses is to send 18, the chip's poll index for them, and an instruction,
/// three times: 50 00 00 00, 58 08 00 00 and 50 08 00 00.
pub proof fn law_asking_for_the_fuses(mode: &IspMode, dialogue: Dialogue)
    requires
        call_ensures(IspMode::get_fuses, (mode,), dialogue),
    ensures
        call_requires(IspMode::get_fuses, (mode,)),
        waits(dialogue, 3),
        ({
            let poll_index = mode.prog.specs.fuse_poll_index;
            let requests = dialogue@.requests;
            &&& asks(requests[0], 0x18, seq![poll_index, 0x50, 0x00, 0x00, 0x00], 1)
            &&& asks(requests[1], 0x18, seq![poll_index, 0x58, 0x08, 0x00, 0x00], 1)
            &&& asks(requests[2], 0x18, seq![poll_index, 0x50, 0x08, 0x00, 0x00], 1)
        }),
{
}

/// To ask for the signature is to send 1B, the chip's poll index for it, and the instruction
/// 30 00 `i` 00, for each of the three bytes.
pub proof fn law_asking_for_the_signature(mode: &IspMode, dialogue: Dialogue)
    requires
        call_ensures(IspMode::get_mcu_signature, (mode,), dialogue),
    ensures
        call_requires(IspMode::get_mcu_signature, (mode,)),
        waits(dialogue, 3),
        ({
            let poll_index = mode.prog.specs.signature_poll_index;
            let requests = dialogue@.requests;
            &&& asks(requests[0], 0x1B, seq![poll_index, 0x30, 0x00, 0x00, 0x00], 1)
            &&& asks(requests[1], 0x1B, seq![poll_index, 0x30, 0x00, 0x01, 0x00], 1)
            &&& asks(requests[2], 0x1B, seq![poll_index, 0x30, 0x00, 0x02, 0x00], 1)
        }),
{
}

/// Poll indices reach the programmer: chips with different ones are asked differently.
pub proof fn law_poll_indices_are_sent(
    first: &IspMode,
    second: &IspMode,
    fuses: (Dialogue, Dialogue),
    lock: (Dialogue, Dialogue),
    signature: (Dialogue, Dialogue),
)
    requires
        call_ensures(IspMode::get_fuses, (first,), fuses.0),
        call_ensures(IspMode::get_fuses, (second,), fuses.1),
        call_ensures(IspMode::get_lock_byte, (first,), lock.0),
        call_ensures(IspMode::get_lock_byte, (second,), lock.1),
        call_ensures(IspMode::get_mcu_signature, (first,), signature.0),
        call_ensures(IspMode::get_mcu_signature, (second,), signature.1),
    ensures
        forall|k: int|
            #![trigger fuses.0@.requests[k]]
            0 <= k < 3 && fuses.0@.requests[k] == fuses.1@.requests[k]
                ==> first.prog.specs.fuse_poll_index == second.prog.specs.fuse_poll_index,
        lock.0@.requests == lock.1@.requests ==> first.prog.specs.lock_poll_index
            == second.prog.specs.lock_poll_index,
        forall|k: int|
            #![trigger signature.0@.requests[k]]
            0 <= k < 3 && signature.0@.requests[k] == signature.1@.requests[k]
                ==> first.prog.specs.signature_poll_index
                == second.prog.specs.signature_poll_index,
{
    law_asking_for_the_fuses(first, fuses.0);
    law_asking_for_the_fuses(second, fuses.1);
    law_asking_for_the_lock_byte(first, lock.0);
    law_asking_for_the_lock_byte(second, lock.1);
    law_asking_for_the_signature(first, signature.0);
    law_asking_for_the_signature(second, signature.1);
    assert forall|k: int|
        #![trigger fuses.0@.requests[k]]
        0 <= k < 3 && fuses.0@.requests[k]
            == fuses.1@.requests[k] implies first.prog.specs.fuse_poll_index
        == second.prog.specs.fuse_poll_index by {
        assert(fuses.0@.requests[k].body[0] == first.prog.specs.fuse_poll_index);
        assert(fuses.1@.requests[k].body[0] == second.prog.specs.fuse_poll_index);
    }
    assert(lock.0@.requests[0].body[0] == first.prog.specs.lock_poll_index);
    assert(lock.1@.requests[0].body[0] == second.prog.specs.lock_poll_index);
    assert forall|k: int|
        #![trigger signature.0@.requests[k]]
        0 <= k < 3 && signature.0@.requests[k]
            == signature.1@.requests[k] implies first.prog.specs.signature_poll_index
        == second.prog.specs.signature_poll_index by {
        assert(signature.0@.requests[k].body[0] == first.prog.specs.signature_poll_index);
        assert(signature.1@.requests[k].body[0] == second.prog.specs.signature_poll_index);
    }
}

} // verus!
