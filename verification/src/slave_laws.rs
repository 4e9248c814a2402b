//! What holds of every run of the slave engine, whatever the hardware
//! answers.
use vstd::prelude::*;
use crate::engine::{Input, Op, Outcome, Request};
use crate::regs::{received_byte, Flag, Status};
use crate::slave::{
    listen_op, nack_op, receive_enables, send_enables, ten_bit_address, ten_bit_header, Slave,
    SlavePhase, SlaveReply,
};
use crate::types::{Command, CommandKind, OwnAddress, ReceiveStatus, SendStatus};

verus! {

/// A slave operation from its first step through the answers `inputs`;
/// nothing follows the step that ends it.
pub open spec fn slave_follow(first: Outcome<Slave, SlaveReply>, inputs: Seq<Input>) -> Outcome<
    Slave,
    SlaveReply,
>
    decreases inputs.len(),
{
    if inputs.len() == 0 {
        first
    } else {
        let before = slave_follow(first, inputs.drop_last());
        match before.request {
            Request::Finish(_) => before,
            _ => {
                let next = before.state.advance(inputs.last());
                Outcome { state: next.state, ops: before.ops + next.ops, request: next.request }
            },
        }
    }
}

/// The commands of `listen` for a match of `kind`: the match interrupt goes
/// on, and the match flag is cleared only where the master writes.
pub open spec fn listen_trace(kind: CommandKind) -> Seq<Op> {
    if kind == CommandKind::SlaveReceive {
        seq![listen_op(), Op::WriteIcr(Flag::Addr)]
    } else {
        seq![listen_op()]
    }
}

/// What holds while `listen` runs.
pub open spec fn listening(out: Outcome<Slave, SlaveReply>) -> bool {
    match out.request {
        Request::Finish(Ok(SlaveReply::Command(command))) => out.ops == listen_trace(command.kind),
        Request::Finish(Ok(_)) => false,
        Request::Finish(Err(_)) => true,
        _ => match out.state.phase {
            SlavePhase::Listening => out.ops == seq![listen_op()],
            SlavePhase::ListenSuspended => out.ops == seq![listen_op()],
            SlavePhase::Matching(kind) => out.ops == listen_trace(kind),
            SlavePhase::LowByte(kind, _) => out.ops == listen_trace(kind),
            SlavePhase::LowByteDeadline(kind, _) => out.ops == listen_trace(kind),
            SlavePhase::LowByteData(kind, _) => out.ops == listen_trace(kind),
            _ => false,
        },
    }
}

/// What holds while `respond_to_send` runs: the stop flag has been cleared
/// exactly where a stop condition was seen, and NACK is armed exactly where
/// the buffer ran out first.
pub open spec fn sending(out: Outcome<Slave, SlaveReply>) -> bool {
    let stopped = out.ops.contains(Op::WriteIcr(Flag::Stop));
    let armed = out.ops.contains(nack_op(true));
    match out.request {
        Request::Finish(Ok(SlaveReply::Sent(status))) => {
            &&& out.ops.last() == send_enables(false)
            &&& status == SendStatus::MoreBytesRequested ==> !stopped && armed
            &&& status != SendStatus::MoreBytesRequested ==> stopped && !armed
        },
        Request::Finish(Ok(_)) => false,
        Request::Finish(Err(_)) => out.ops.last() == send_enables(false),
        _ => match out.state.phase {
            SlavePhase::Sending => !stopped && !armed,
            SlavePhase::SendProbe => !stopped && !armed,
            SlavePhase::SendSuspended => !stopped && !armed,
            SlavePhase::SendCount => stopped && !armed,
            SlavePhase::SendDrain(status) => {
                &&& status == SendStatus::MoreBytesRequested ==> !stopped && armed
                &&& status != SendStatus::MoreBytesRequested ==> stopped && !armed
            },
            _ => false,
        },
    }
}

/// A command is among two sequences joined where it is in either.
pub proof fn lemma_contains_concat(a: Seq<Op>, b: Seq<Op>, op: Op)
    ensures
        (a + b).contains(op) <==> a.contains(op) || b.contains(op),
{
    if a.contains(op) {
        let i = choose|i: int| 0 <= i < a.len() && a[i] == op;
        assert((a + b)[i] == op);
    }
    if b.contains(op) {
        let i = choose|i: int| 0 <= i < b.len() && b[i] == op;
        assert((a + b)[a.len() + i] == op);
    }
    if (a + b).contains(op) {
        let i = choose|i: int| 0 <= i < (a + b).len() && (a + b)[i] == op;
        if i < a.len() {
            assert(a[i] == op);
        } else {
            assert(b[i - a.len()] == op);
        }
    }
}

/// Every answer keeps what holds while `listen` runs.
pub proof fn lemma_listen_step(before: Outcome<Slave, SlaveReply>, input: Input)
    requires
        listening(before),
        !(before.request is Finish),
    ensures
        ({
            let next = before.state.advance(input);
            listening(Outcome { state: next.state, ops: before.ops + next.ops, request: next.request })
        }),
{
    let next = before.state.advance(input);
    let none = Seq::<Op>::empty();
    assert(before.ops + none =~= before.ops);
    assert(seq![listen_op()] + seq![Op::WriteIcr(Flag::Addr)] =~= listen_trace(
        CommandKind::SlaveReceive,
    ));
}

/// `listen` clears the match flag at once where the master writes, and
/// leaves it set where the master reads: the clock stays stretched until
/// `respond_to_send` clears the flag. This holds whatever the hardware
/// answered on the way.
pub proof fn lemma_listen(inputs: Seq<Input>)
    ensures
        listening(slave_follow(Slave::listen(), inputs)),
        slave_follow(Slave::listen(), inputs).request matches Request::Finish(
            Ok(SlaveReply::Command(command)),
        ) ==> (command.kind == CommandKind::SlaveSend <==> !slave_follow(
            Slave::listen(),
            inputs,
        ).ops.contains(Op::WriteIcr(Flag::Addr))),
    decreases inputs.len(),
{
    let first = Slave::listen();
    if inputs.len() > 0 {
        let before = slave_follow(first, inputs.drop_last());
        lemma_listen(inputs.drop_last());
        if !(before.request is Finish) {
            lemma_listen_step(before, inputs.last());
        }
    }
    let end = slave_follow(first, inputs);
    match end.request {
        Request::Finish(Ok(SlaveReply::Command(command))) => {
            if command.kind == CommandKind::SlaveReceive {
                assert(end.ops[1] == Op::WriteIcr(Flag::Addr));
            }
        },
        _ => {},
    }
}

/// Both answers to a match clear the match flag only once the DMA engine
/// has been started.
pub proof fn lemma_respond_clears_match(len: usize)
    ensures
        Slave::respond_to_receive(len).ops[1] == (Op::StartDmaRead { len }),
        Slave::respond_to_receive(len).ops[2] == Op::WriteIcr(Flag::Addr),
        Slave::respond_to_send(len).ops[2] == (Op::StartDmaWrite { buffer: 0, len }),
        Slave::respond_to_send(len).ops[3] == Op::WriteIcr(Flag::Addr),
{
}

/// Every answer keeps what holds while `respond_to_send` runs.
pub proof fn lemma_send_step(before: Outcome<Slave, SlaveReply>, input: Input)
    requires
        sending(before),
        !(before.request is Finish),
    ensures
        ({
            let next = before.state.advance(input);
            sending(Outcome { state: next.state, ops: before.ops + next.ops, request: next.request })
        }),
{
    let next = before.state.advance(input);
    let none = Seq::<Op>::empty();
    let stop = Op::WriteIcr(Flag::Stop);
    let arm = nack_op(true);
    assert(before.ops + none =~= before.ops);
    lemma_contains_concat(before.ops, next.ops, stop);
    lemma_contains_concat(before.ops, next.ops, arm);
    assert(seq![stop][0] == stop);
    assert(seq![arm][0] == arm);
    if next.ops.len() > 0 {
        assert((before.ops + next.ops).last() == next.ops.last());
    }
}

/// How `respond_to_send` ends says what was seen on the bus, whatever the
/// hardware answered on the way: it ends with `MoreBytesRequested` exactly
/// where the DMA engine ran out of bytes before any stop condition was
/// seen, and then NACK is armed for the next byte; it ends with `Done` or
/// `LeftoverBytes` exactly where a stop condition was seen. However it
/// ends, its last command switches off the DMA requests and the interrupts
/// it had enabled.
pub proof fn lemma_respond_to_send(len: usize, inputs: Seq<Input>)
    ensures
        sending(slave_follow(Slave::respond_to_send(len), inputs)),
    decreases inputs.len(),
{
    let first = Slave::respond_to_send(len);
    if inputs.len() > 0 {
        let before = slave_follow(first, inputs.drop_last());
        lemma_respond_to_send(len, inputs.drop_last());
        if !(before.request is Finish) {
            lemma_send_step(before, inputs.last());
        }
    } else {
        let stop = Op::WriteIcr(Flag::Stop);
        let arm = nack_op(true);
        assert(!first.ops.contains(stop));
        assert(!first.ops.contains(arm));
    }
}

/// A master that reads the whole buffer and then stops: the stop is seen
/// with nothing left in the DMA engine, and the operation ends with `Done`.
pub proof fn lemma_send_done(len: usize, flags: u32)
    requires
        Status::of(flags).stopf,
    ensures
        ({
            let seen = Slave::respond_to_send(len).state.advance(Input::Word(flags));
            let counted = seen.state.advance(Input::Remaining(0));
            let drained = counted.state.advance(Input::DmaDone);
            &&& seen.request == Request::<SlaveReply>::DmaRemaining
            &&& counted.request == Request::<SlaveReply>::AwaitDma
            &&& drained.request == Request::Finish(Ok(SlaveReply::Sent(SendStatus::Done)))
        }),
{
}

/// A master that clocks on after the buffer ran out: no stop is seen, the
/// DMA engine reports completion, and the operation ends with
/// `MoreBytesRequested`, NACK armed.
pub proof fn lemma_send_more(len: usize, flags: u32)
    requires
        !Status::of(flags).stopf,
    ensures
        ({
            let seen = Slave::respond_to_send(len).state.advance(Input::Word(flags));
            let probed = seen.state.advance(Input::DmaReady(true));
            let drained = probed.state.advance(Input::DmaDone);
            &&& seen.request == Request::<SlaveReply>::PollDma
            &&& probed.ops == seq![nack_op(true)]
            &&& drained.request == Request::Finish(
                Ok(SlaveReply::Sent(SendStatus::MoreBytesRequested)),
            )
        }),
{
}

/// The byte count that a reception reports.
pub open spec fn reported(status: ReceiveStatus) -> usize {
    match status {
        ReceiveStatus::SendRequested(size) => size,
        ReceiveStatus::Done(size) => size,
    }
}

/// What holds while `respond_to_receive` runs: once the stop condition was
/// seen its flag is cleared and the count is within the buffer, and once the
/// DMA engine is done the enables of the reception are off.
pub open spec fn receiving(out: Outcome<Slave, SlaveReply>) -> bool {
    let stopped = out.ops.contains(Op::WriteIcr(Flag::Stop));
    let off = out.ops.contains(receive_enables(false));
    match out.request {
        Request::Finish(Ok(SlaveReply::Received(status))) => stopped && off && reported(status)
            <= out.state.len,
        Request::Finish(Ok(_)) => false,
        Request::Finish(Err(_)) => out.ops.last() == receive_enables(false),
        _ => match out.state.phase {
            SlavePhase::Receiving => !stopped && !off,
            SlavePhase::ReceiveSuspended => !stopped && !off,
            SlavePhase::ReceiveCount => stopped && !off,
            SlavePhase::ReceiveDrain(size) => stopped && !off && size <= out.state.len,
            SlavePhase::Turnaround(size) => stopped && off && size <= out.state.len,
            SlavePhase::TurnaroundSuspended(size) => stopped && off && size <= out.state.len,
            _ => false,
        },
    }
}

/// Every answer keeps what holds while `respond_to_receive` runs.
pub proof fn lemma_receive_step(before: Outcome<Slave, SlaveReply>, input: Input)
    requires
        receiving(before),
        !(before.request is Finish),
    ensures
        ({
            let next = before.state.advance(input);
            receiving(Outcome { state: next.state, ops: before.ops + next.ops, request: next.request })
        }),
{
    let next = before.state.advance(input);
    let none = Seq::<Op>::empty();
    let stop = Op::WriteIcr(Flag::Stop);
    let off = receive_enables(false);
    assert(before.ops + none =~= before.ops);
    lemma_contains_concat(before.ops, next.ops, stop);
    lemma_contains_concat(before.ops, next.ops, off);
    assert(seq![stop][0] == stop);
    assert(seq![off][0] == off);
    assert(seq![off, listen_op()][0] == off);
    if next.ops.len() > 0 {
        assert((before.ops + next.ops).last() == next.ops.last());
    }
}

/// However `respond_to_receive` ends, the DMA requests and the stop
/// interrupt it had enabled are off again. Where it ends well, a stop
/// condition was seen and its flag cleared, and the count it reports is no
/// more than the buffer holds.
pub proof fn lemma_respond_to_receive(len: usize, inputs: Seq<Input>)
    ensures
        receiving(slave_follow(Slave::respond_to_receive(len), inputs)),
        slave_follow(Slave::respond_to_receive(len), inputs).state.len == len,
    decreases inputs.len(),
{
    let first = Slave::respond_to_receive(len);
    if inputs.len() > 0 {
        let before = slave_follow(first, inputs.drop_last());
        lemma_respond_to_receive(len, inputs.drop_last());
        if !(before.request is Finish) {
            lemma_receive_step(before, inputs.last());
        }
    } else {
        assert(!first.ops.contains(Op::WriteIcr(Flag::Stop)));
        assert(!first.ops.contains(receive_enables(false)));
    }
}

/// The match codes of ten-bit addresses are the four seven-bit codes that
/// begin with `11110`.
pub proof fn lemma_ten_bit_codes(code: u8)
    ensures
        ten_bit_header(code) <==> 0b1111000 <= code <= 0b1111011,
{
    assert((code >> 2 == 0b11110u8) <==> (0b1111000u8 <= code && code <= 0b1111011u8))
        by (bit_vector);
}

/// A match on a seven-bit address is reported with its match code, and the
/// receive register is not read.
pub proof fn lemma_seven_bit_match(state: Slave, kind: CommandKind, flags: u32)
    requires
        state.phase == SlavePhase::Matching(kind),
        !ten_bit_header(Status::of(flags).addcode),
    ensures
        state.advance(Input::Word(flags)).ops == Seq::<Op>::empty(),
        state.advance(Input::Word(flags)).request == Request::Finish(
            Ok(
                SlaveReply::Command(
                    Command { kind, address: OwnAddress::SevenBit(Status::of(flags).addcode) },
                ),
            ),
        ),
{
}

/// A match on a ten-bit address is resolved with one read of the receive
/// register, once it holds a byte: the address is the match code, shifted up
/// by six, joined with that byte.
pub proof fn lemma_ten_bit_match(
    state: Slave,
    kind: CommandKind,
    flags: u32,
    ready: u32,
    data: u32,
)
    requires
        state.phase == SlavePhase::Matching(kind),
        ten_bit_header(Status::of(flags).addcode),
        Status::of(ready).rxne,
    ensures
        ({
            let code = Status::of(flags).addcode;
            let seen = state.advance(Input::Word(flags));
            let full = seen.state.advance(Input::Word(ready));
            let end = full.state.advance(Input::Word(data));
            &&& seen.request == Request::<SlaveReply>::ReadIsr
            &&& full.request == Request::<SlaveReply>::ReadRxdr
            &&& seen.ops + full.ops + end.ops == Seq::<Op>::empty()
            &&& end.request == Request::Finish(
                Ok(
                    SlaveReply::Command(
                        Command {
                            kind,
                            address: OwnAddress::TenBit(
                                ten_bit_address(code, received_byte(data)),
                            ),
                        },
                    ),
                ),
            )
        }),
{
    let seen = state.advance(Input::Word(flags));
    let full = seen.state.advance(Input::Word(ready));
    let end = full.state.advance(Input::Word(data));
    assert(seen.ops + full.ops + end.ops =~= Seq::<Op>::empty());
}

} // verus!
