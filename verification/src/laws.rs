//! What holds of every run of the master engine, whatever the hardware
//! answers.
use vstd::prelude::*;
use crate::chunk::{chunk_count, chunk_size, chunk_spec, chunks, CHUNK_MAX};
use crate::engine::{Input, Op, Outcome, Request};
use crate::i2c::{
    closing, joined, lemma_scanned_shape, open_leg, read_leg, scanned, vectored_legs, write_leg,
};
use crate::master::{pending, stop_op, Awaited, Control, Ending, Leg, Master, Phase};
use crate::bits::bit_get;
use crate::regs::{received_byte, start_pending, Flag, Status};
use crate::trace::{
    continuations, heard, reads_so_far, reads_total, follow, leg_progress, leg_tally, legs_tally, lemma_plus_assoc, lemma_plus_zero, lemma_same, lemma_tally_push, progress, tally, Tally,
};
use crate::types::Error;

verus! {

/// The leg under way is programmed to its end, and moved to its end where
/// the engine moves the bytes itself.
pub open spec fn complete(state: Master) -> bool {
    let leg = state.current();
    &&& state.programmed == leg.len
    &&& state.chunk == chunk_count(leg.len as nat)
    &&& !leg.dma ==> state.done == leg.len
}

/// The invariant of an engine that waits for an answer.
pub open spec fn strong(state: Master) -> bool {
    &&& state.wf()
    &&& state.phase != Phase::Idle
    &&& (state.phase == Phase::Polling(Awaited::Complete) || state.phase == Phase::Deadline(
        Awaited::Complete,
    ) || state.phase == Phase::Dma) ==> complete(state)
    &&& (state.phase == Phase::Polling(Awaited::ReceiveFull) || state.phase == Phase::Deadline(
        Awaited::ReceiveFull,
    ) || state.phase == Phase::Data) ==> !state.current().write
    &&& (state.phase == Phase::Polling(Awaited::StartCleared) || state.phase == Phase::Deadline(
        Awaited::StartCleared,
    )) ==> state.current().first
    &&& state.received.len() == reads_so_far(state)
}

/// What holds after every step: while the operation runs and no NACK is
/// being flushed, the commands so far amount to the progress the engine
/// records; once it has ended well, they amount to all its legs.
pub open spec fn holds(out: Outcome<Master, ()>) -> bool {
    match out.request {
        Request::Finish(Ok(_)) => {
            &&& tally(out.ops) == legs_tally(out.state.legs, out.state.bytes, out.state.legs.len())
            &&& out.state.received.len() == reads_total(out.state.legs, out.state.legs.len())
        },
        Request::Finish(Err(_)) => true,
        _ => {
            &&& strong(out.state)
            &&& out.request == pending(out.state.phase)
            &&& out.state.phase != Phase::FlushPending && out.state.phase != Phase::FlushEmpty
                ==> tally(out.ops) == progress(out.state)
        },
    }
}

/// What the commands so far amount to when a decision is due.
pub open spec fn claim(state: Master, ops: Seq<Op>, control: Control) -> bool {
    match control {
        Control::Fail(_) => true,
        Control::Finish => {
            &&& tally(ops) == legs_tally(state.legs, state.bytes, state.leg + 1)
            &&& state.received.len() == reads_total(state.legs, state.leg + 1)
        },
        Control::Close => complete(state) && tally(ops) == progress(state) && state.received.len()
            == reads_so_far(state),
        Control::Released => complete(state) && tally(ops) == progress(state)
            && state.received.len() == reads_so_far(state),
        Control::Bytes => state.chunk >= 1 && tally(ops) == progress(state)
            && state.received.len() == reads_so_far(state),
        _ => tally(ops) == progress(state) && state.received.len() == reads_so_far(state),
    }
}

/// A step adds its commands to those it was given and looks at none of them.
#[verifier::rlimit(50)]
pub proof fn lemma_settle_prefix(state: Master, head: Seq<Op>, ops: Seq<Op>, control: Control)
    ensures
        state.settle(head + ops, control).state == state.settle(ops, control).state,
        state.settle(head + ops, control).request == state.settle(ops, control).request,
        state.settle(head + ops, control).ops == head + state.settle(ops, control).ops,
    decreases state.legs.len() - state.leg, control.rank(),
{
    let leg = state.current();
    match control {
        Control::Enter => {
            if leg.dma {
                assert((head + ops).push(Op::ModifyCr1(leg.setup())).push(leg.start_dma())
                    =~= head + ops.push(Op::ModifyCr1(leg.setup())).push(leg.start_dma()));
            } else {
                lemma_settle_prefix(state, head, ops, Control::Open);
            }
        },
        Control::Open => {
            if leg.first && !(leg.write || !leg.restart) {
                lemma_settle_prefix(state, head, ops, Control::Program);
            }
        },
        Control::Program => {
            let next = Master {
                chunk: state.chunk + 1,
                programmed: state.programmed + chunk_size(leg.len as nat, state.programmed),
                ..state
            };
            assert(leg.program_onto(head + ops, state.programmed, state.address) =~= head
                + leg.program_onto(ops, state.programmed, state.address));
            if !leg.dma {
                lemma_settle_prefix(
                    next,
                    head,
                    leg.program_onto(ops, state.programmed, state.address),
                    Control::Bytes,
                );
            }
        },
        Control::Bytes => {
            if !(state.done < leg.len) {
                lemma_settle_prefix(state, head, ops, Control::Close);
            }
        },
        Control::Close => {
            if leg.ending == Ending::Open {
                lemma_settle_prefix(state, head, ops, Control::Finish);
            }
        },
        Control::Released => {
            if leg.ending == Ending::Release {
                assert((head + ops).push(stop_op()) =~= head + ops.push(stop_op()));
                lemma_settle_prefix(state, head, ops.push(stop_op()), Control::Finish);
            } else {
                lemma_settle_prefix(state, head, ops, Control::Finish);
            }
        },
        Control::Finish => {
            let done = if leg.dma {
                ops.push(Op::ModifyCr1(leg.teardown()))
            } else {
                ops
            };
            assert((if leg.dma {
                (head + ops).push(Op::ModifyCr1(leg.teardown()))
            } else {
                head + ops
            }) =~= head + done);
            if state.leg + 1 < state.legs.len() {
                lemma_settle_prefix(
                    Master { leg: state.leg + 1, chunk: 0, programmed: 0, done: 0, ..state },
                    head,
                    done,
                    Control::Enter,
                );
            }
        },
        Control::Fail(_) => {
            assert(state.fail_onto(head + ops) =~= head + state.fail_onto(ops));
        },
    }
}

/// Programming the next chunk adds exactly that chunk of the leg's plan, and
/// an address phase where the chunk opens the transfer.
pub proof fn lemma_program_tally(state: Master, ops: Seq<Op>)
    requires
        state.ready(Control::Program),
        tally(ops) == progress(state),
    ensures
        ({
            let leg = state.current();
            let next = Master {
                chunk: state.chunk + 1,
                programmed: state.programmed + chunk_size(leg.len as nat, state.programmed),
                ..state
            };
            &&& tally(leg.program_onto(ops, state.programmed, state.address)) == progress(next)
            &&& next.within()
        }),
{
    let leg = state.current();
    let next = Master {
        chunk: state.chunk + 1,
        programmed: state.programmed + chunk_size(leg.len as nat, state.programmed),
        ..state
    };
    let update = Op::ModifyCr2(leg.program(state.programmed, state.address));
    let plan = chunks(leg.len as nat, leg.last);
    assert(state.programmed == CHUNK_MAX * state.chunk);
    assert(state.chunk < chunk_count(leg.len as nat));
    assert(plan[state.chunk as int] == chunk_spec(leg.len as nat, state.programmed, leg.last));
    assert(plan.take(state.chunk as int + 1) =~= plan.take(state.chunk as int).push(
        plan[state.chunk as int],
    ));
    lemma_tally_push(ops, update);
    if leg.dma && !(leg.first && state.programmed == 0) {
        lemma_tally_push(ops.push(update), crate::master::rearm_op());
        lemma_plus_zero(tally(ops.push(update)));
    }
    let step = Tally::of(update);
    lemma_plus_assoc(legs_tally(state.legs, state.bytes, state.leg), leg_progress(state), step);
    lemma_same(leg_progress(state).plus(step), leg_progress(next));
}

/// Parking keeps the invariant where the commands amount to the progress
/// and the phase suits the state.
proof fn lemma_park_holds(state: Master, ops: Seq<Op>, phase: Phase)
    requires
        tally(ops) == progress(state),
        strong(Master { phase, ..state }),
    ensures
        holds(state.park(phase, ops)),
{
    assert(progress(Master { phase, ..state }) == progress(state));
}

/// Where a leg begins: a DMA leg parks, another goes on to open.
proof fn lemma_at_enter(state: Master, ops: Seq<Op>)
    requires
        state.ready(Control::Enter),
        claim(state, ops, Control::Enter),
    ensures
        state.current().dma ==> holds(state.settle(ops, Control::Enter)),
        !state.current().dma ==> state.ready(Control::Open) && claim(state, ops, Control::Open),
{
    let leg = state.current();
    if leg.dma {
        let first = ops.push(Op::ModifyCr1(leg.setup()));
        lemma_tally_push(ops, Op::ModifyCr1(leg.setup()));
        lemma_tally_push(first, leg.start_dma());
        lemma_plus_zero(tally(ops));
        lemma_park_holds(state, first.push(leg.start_dma()), Phase::Flags);
    }
}

/// Where a leg opens: it parks for the wait it needs, or programs at once.
proof fn lemma_at_open(state: Master, ops: Seq<Op>)
    requires
        state.ready(Control::Open),
        claim(state, ops, Control::Open),
    ensures
        ({
            let leg = state.current();
            if leg.first && !(leg.write || !leg.restart) {
                state.ready(Control::Program) && claim(state, ops, Control::Program)
            } else {
                holds(state.settle(ops, Control::Open))
            }
        }),
{
    let leg = state.current();
    if !leg.first {
        lemma_park_holds(state, ops, Phase::Polling(Awaited::Reload));
    } else if leg.write || !leg.restart {
        lemma_park_holds(state, ops, Phase::Polling(Awaited::StartCleared));
    }
}

/// Where a chunk is programmed: a DMA leg parks, another goes on to its
/// bytes.
proof fn lemma_at_program(state: Master, ops: Seq<Op>)
    requires
        state.ready(Control::Program),
        claim(state, ops, Control::Program),
    ensures
        ({
            let leg = state.current();
            let next = Master {
                chunk: state.chunk + 1,
                programmed: state.programmed + chunk_size(leg.len as nat, state.programmed),
                ..state
            };
            let queue = leg.program_onto(ops, state.programmed, state.address);
            if leg.dma {
                holds(state.settle(ops, Control::Program))
            } else {
                next.ready(Control::Bytes) && claim(next, queue, Control::Bytes)
            }
        }),
{
    let leg = state.current();
    let next = Master {
        chunk: state.chunk + 1,
        programmed: state.programmed + chunk_size(leg.len as nat, state.programmed),
        ..state
    };
    lemma_program_tally(state, ops);
    if leg.dma {
        lemma_park_holds(
            next,
            leg.program_onto(ops, state.programmed, state.address),
            Phase::Suspended,
        );
    }
}

/// Where a byte is due: the engine parks for reload or for the byte, or the
/// leg is complete.
proof fn lemma_at_bytes(state: Master, ops: Seq<Op>)
    requires
        state.ready(Control::Bytes),
        claim(state, ops, Control::Bytes),
    ensures
        state.done < state.current().len ==> holds(state.settle(ops, Control::Bytes)),
        state.done >= state.current().len ==> state.ready(Control::Close) && claim(
            state,
            ops,
            Control::Close,
        ),
{
    let leg = state.current();
    if state.done < leg.len {
        if state.done == state.programmed {
            lemma_park_holds(state, ops, Phase::Polling(Awaited::Reload));
        } else {
            lemma_park_holds(state, ops, Phase::Polling(leg.byte_ready()));
        }
    }
}

/// Where a leg closes: it parks for transfer-complete, or is over.
proof fn lemma_at_close(state: Master, ops: Seq<Op>)
    requires
        state.ready(Control::Close),
        claim(state, ops, Control::Close),
    ensures
        state.current().ending == Ending::Open ==> state.ready(Control::Finish) && claim(
            state,
            ops,
            Control::Finish,
        ),
        state.current().ending != Ending::Open ==> holds(state.settle(ops, Control::Close)),
{
    let leg = state.current();
    if leg.ending == Ending::Open {
        lemma_leg_over(state, 0);
    } else {
        lemma_park_holds(state, ops, Phase::Polling(Awaited::Complete));
    }
}

/// Where transfer-complete was seen: with the STOP of a leg that releases
/// the bus, the leg is over.
proof fn lemma_at_released(state: Master, ops: Seq<Op>)
    requires
        state.ready(Control::Released),
        claim(state, ops, Control::Released),
    ensures
        ({
            let queue = if state.current().ending == Ending::Release {
                ops.push(stop_op())
            } else {
                ops
            };
            state.ready(Control::Finish) && claim(state, queue, Control::Finish)
        }),
{
    let leg = state.current();
    if leg.ending == Ending::Release {
        lemma_tally_push(ops, stop_op());
        lemma_leg_over(state, 1);
    } else {
        lemma_leg_over(state, 0);
    }
}

/// Where a leg is over: the next leg begins with nothing of its own done, or
/// the operation has ended well.
proof fn lemma_at_finish(state: Master, ops: Seq<Op>)
    requires
        state.ready(Control::Finish),
        claim(state, ops, Control::Finish),
    ensures
        ({
            let leg = state.current();
            let queue = if leg.dma {
                ops.push(Op::ModifyCr1(leg.teardown()))
            } else {
                ops
            };
            let next = Master { leg: state.leg + 1, chunk: 0, programmed: 0, done: 0, ..state };
            if state.leg + 1 < state.legs.len() {
                next.ready(Control::Enter) && claim(next, queue, Control::Enter)
            } else {
                holds(state.settle(ops, Control::Finish))
            }
        }),
{
    let leg = state.current();
    if leg.dma {
        lemma_tally_push(ops, Op::ModifyCr1(leg.teardown()));
        lemma_plus_zero(tally(ops));
    }
    if state.leg + 1 < state.legs.len() {
        let next = Master { leg: state.leg + 1, chunk: 0, programmed: 0, done: 0, ..state };
        lemma_same(leg_progress(next), Tally::zero());
        lemma_plus_zero(legs_tally(state.legs, state.bytes, state.leg + 1));
    }
}

/// Carrying a step to its end keeps the invariant.
#[verifier::rlimit(50)]
pub proof fn lemma_settle_holds(state: Master, ops: Seq<Op>, control: Control)
    requires
        state.ready(control),
        claim(state, ops, control),
    ensures
        holds(state.settle(ops, control)),
    decreases state.legs.len() - state.leg, control.rank(),
{
    let leg = state.current();
    match control {
        Control::Enter => {
            lemma_at_enter(state, ops);
            if !leg.dma {
                lemma_settle_holds(state, ops, Control::Open);
            }
        },
        Control::Open => {
            lemma_at_open(state, ops);
            if leg.first && !(leg.write || !leg.restart) {
                lemma_settle_holds(state, ops, Control::Program);
            }
        },
        Control::Program => {
            lemma_at_program(state, ops);
            if !leg.dma {
                lemma_settle_holds(
                    Master {
                        chunk: state.chunk + 1,
                        programmed: state.programmed + chunk_size(leg.len as nat, state.programmed),
                        ..state
                    },
                    leg.program_onto(ops, state.programmed, state.address),
                    Control::Bytes,
                );
            }
        },
        Control::Bytes => {
            lemma_at_bytes(state, ops);
            if state.done >= leg.len {
                lemma_settle_holds(state, ops, Control::Close);
            }
        },
        Control::Close => {
            lemma_at_close(state, ops);
            if leg.ending == Ending::Open {
                lemma_settle_holds(state, ops, Control::Finish);
            }
        },
        Control::Released => {
            lemma_at_released(state, ops);
            if leg.ending == Ending::Release {
                lemma_settle_holds(state, ops.push(stop_op()), Control::Finish);
            } else {
                lemma_settle_holds(state, ops, Control::Finish);
            }
        },
        Control::Finish => {
            lemma_at_finish(state, ops);
            if state.leg + 1 < state.legs.len() {
                lemma_settle_holds(
                    Master { leg: state.leg + 1, chunk: 0, programmed: 0, done: 0, ..state },
                    if leg.dma {
                        ops.push(Op::ModifyCr1(leg.teardown()))
                    } else {
                        ops
                    },
                    Control::Enter,
                );
            }
        },
        Control::Fail(_) => {},
    }
}

/// A leg that is complete amounts to what the leg is to amount to, but for
/// the STOP conditions, of which `stops` have been commanded.
pub proof fn lemma_leg_over(state: Master, stops: nat)
    requires
        state.within(),
        complete(state),
        stops == (if state.current().ending == Ending::Release {
            1nat
        } else {
            0nat
        }),
    ensures
        progress(state).plus(Tally { stops, ..Tally::zero() }) == legs_tally(
            state.legs,
            state.bytes,
            state.leg + 1,
        ),
{
    let leg = state.current();
    let plan = chunks(leg.len as nat, leg.last);
    assert(plan.take(state.chunk as int) =~= plan);
    let last = Tally { stops, ..Tally::zero() };
    lemma_plus_assoc(legs_tally(state.legs, state.bytes, state.leg), leg_progress(state), last);
    lemma_same(leg_progress(state).plus(last), leg_tally(leg, state.bytes));
    if stops == 0 {
        lemma_plus_zero(progress(state));
    }
}

/// The first step of an operation establishes the invariant.
pub proof fn lemma_begin_holds(legs: Seq<Leg>, bytes: Seq<u8>, address: u8, fail_stop: bool)
    requires
        forall|i: int| 0 <= i < legs.len() ==> (#[trigger] legs[i]).fits(bytes.len()),
    ensures
        holds(Master::begin(legs, bytes, address, fail_stop)),
{
    if legs.len() > 0 {
        let state = Master::armed(legs, bytes, address, fail_stop);
        lemma_same(leg_progress(state), Tally::zero());
        lemma_plus_zero(Tally::zero());
        lemma_settle_holds(state, Seq::empty(), Control::Enter);
    }
}

/// A step that begins with a decision, after the commands `ops`, keeps the
/// invariant of the whole run.
proof fn lemma_step_holds(
    before: Seq<Op>,
    state: Master,
    ops: Seq<Op>,
    control: Control,
)
    requires
        state.ready(control),
        claim(state, before + ops, control),
    ensures
        holds(
            Outcome {
                state: state.settle(ops, control).state,
                ops: before + state.settle(ops, control).ops,
                request: state.settle(ops, control).request,
            },
        ),
{
    lemma_settle_prefix(state, before, ops, control);
    lemma_settle_holds(state, before + ops, control);
}

/// Every answer keeps the invariant.
#[verifier::rlimit(50)]
pub proof fn lemma_advance_holds(before: Outcome<Master, ()>, input: Input)
    requires
        holds(before),
        !(before.request is Finish),
    ensures
        ({
            let next = before.state.advance(input);
            holds(Outcome { state: next.state, ops: before.ops + next.ops, request: next.request })
        }),
{
    let state = before.state;
    let leg = state.current();
    let next = state.advance(input);
    let none = Seq::<Op>::empty();
    assert(before.ops + none =~= before.ops);
    assert(forall|phase: Phase| progress(Master { phase, ..state }) == progress(state));
    match (state.phase, input) {
        (Phase::Polling(awaited), Input::Word(word)) => {
            let status = Status::of(word);
            match awaited {
                Awaited::StartCleared => {
                    if !start_pending(word) {
                        lemma_step_holds(before.ops, state, none, Control::Program);
                    }
                },
                Awaited::Reload => {
                    if status.tcr {
                        lemma_step_holds(before.ops, state, none, Control::Program);
                    }
                },
                Awaited::TransmitEmpty => {
                    if status.txe {
                        let byte = state.bytes[leg.offset + state.done];
                        let moved = Master { done: state.done + 1, ..state };
                        let ops = seq![Op::WriteTxdr(byte)];
                        assert(before.ops + ops =~= before.ops.push(Op::WriteTxdr(byte)));
                        lemma_tally_push(before.ops, Op::WriteTxdr(byte));
                        lemma_plus_assoc(
                            legs_tally(state.legs, state.bytes, state.leg),
                            leg_progress(state),
                            Tally::of(Op::WriteTxdr(byte)),
                        );
                        assert(leg.fits(state.bytes.len()));
                        lemma_same(
                            leg_progress(state).plus(Tally::of(Op::WriteTxdr(byte))),
                            leg_progress(moved),
                        );
                        lemma_step_holds(before.ops, moved, ops, Control::Bytes);
                    } else {
                        lemma_fault_holds(before, status, awaited);
                    }
                },
                Awaited::ReceiveFull => {
                    if !status.rxne {
                        lemma_fault_holds(before, status, awaited);
                    }
                },
                Awaited::Complete => {
                    if status.tc {
                        lemma_step_holds(before.ops, state, none, Control::Released);
                    } else {
                        lemma_fault_holds(before, status, awaited);
                    }
                },
            }
        },
        (Phase::Deadline(_), Input::Expired(true)) => {
            lemma_step_holds(before.ops, state, none, Control::Fail(Error::Timeout));
        },
        (Phase::Data, Input::Word(word)) => {
            let moved = Master {
                received: state.received.push(received_byte(word)),
                done: state.done + 1,
                ..state
            };
            lemma_same(leg_progress(moved), leg_progress(state));
            lemma_step_holds(before.ops, moved, none, Control::Bytes);
        },
        (Phase::FlushPending, Input::Word(word)) => {},
        (Phase::FlushEmpty, Input::Word(word)) => {
            let ops = if Status::of(word).txe {
                none
            } else {
                seq![Op::FlushTransmit]
            };
            lemma_step_holds(before.ops, state, ops, Control::Fail(Error::Nack));
        },
        (Phase::Flags, Input::Word(word)) => {
            if state.chunk == 0 {
                lemma_step_holds(before.ops, state, none, Control::Open);
            }
        },
        (Phase::Suspended, Input::Expired(true)) => {
            lemma_step_holds(before.ops, state, none, Control::Fail(Error::Timeout));
        },
        (Phase::Dma, Input::DmaDone) => {
            lemma_step_holds(before.ops, state, none, Control::Close);
        },
        (Phase::Dma, Input::Expired(true)) => {
            lemma_step_holds(before.ops, state, none, Control::Fail(Error::Timeout));
        },
        _ => {},
    }
}

/// An error flag or a missing condition keeps the invariant.
proof fn lemma_fault_holds(before: Outcome<Master, ()>, status: Status, awaited: Awaited)
    requires
        holds(before),
        !(before.request is Finish),
        before.state.phase == Phase::Polling(awaited),
        awaited == Awaited::TransmitEmpty || awaited == Awaited::ReceiveFull || awaited
            == Awaited::Complete,
    ensures
        ({
            let next = before.state.fault(status, awaited);
            holds(Outcome { state: next.state, ops: before.ops + next.ops, request: next.request })
        }),
{
    let state = before.state;
    let none = Seq::<Op>::empty();
    assert(before.ops + none =~= before.ops);
    assert(forall|phase: Phase| progress(Master { phase, ..state }) == progress(state));
    if status.berr {
        lemma_step_holds(before.ops, state, seq![Op::WriteIcr(Flag::Berr)], Control::Fail(Error::Bus));
    } else if status.arlo {
        lemma_step_holds(
            before.ops,
            state,
            seq![Op::WriteIcr(Flag::Arlo)],
            Control::Fail(Error::Arbitration),
        );
    }
}

/// The invariant holds after any answers.
pub proof fn lemma_follow_holds(first: Outcome<Master, ()>, inputs: Seq<Input>)
    requires
        holds(first),
    ensures
        holds(follow(first, inputs)),
    decreases inputs.len(),
{
    if inputs.len() > 0 {
        let before = follow(first, inputs.drop_last());
        lemma_follow_holds(first, inputs.drop_last());
        if !(before.request is Finish) {
            lemma_advance_holds(before, inputs.last());
        }
    }
}

/// An operation that ends well has put on the bus exactly what its legs
/// describe, whatever the hardware answered and however long it took: every
/// byte of every blocking write once and in order, the chunks of every
/// buffer, one address phase for each leg that opens one, and one STOP for
/// each leg that releases the bus.
pub proof fn lemma_operation_complete(
    legs: Seq<Leg>,
    bytes: Seq<u8>,
    address: u8,
    fail_stop: bool,
    inputs: Seq<Input>,
)
    requires
        forall|i: int| 0 <= i < legs.len() ==> (#[trigger] legs[i]).fits(bytes.len()),
    ensures
        ({
            let end = follow(Master::begin(legs, bytes, address, fail_stop), inputs);
            end.request == Request::<()>::Finish(Ok(())) ==> tally(end.ops) == legs_tally(
                legs,
                bytes,
                legs.len(),
            )
        }),
{
    let first = Master::begin(legs, bytes, address, fail_stop);
    lemma_begin_holds(legs, bytes, address, fail_stop);
    lemma_follow_holds(first, inputs);
    lemma_follow_keeps(first, inputs);
    if legs.len() > 0 {
        crate::i2c::lemma_settle_keeps(
            Master::armed(legs, bytes, address, fail_stop),
            Seq::empty(),
            Control::Enter,
        );
    }
}

/// No answer changes the legs or the payload of an operation.
pub proof fn lemma_follow_keeps(first: Outcome<Master, ()>, inputs: Seq<Input>)
    ensures
        follow(first, inputs).state.legs == first.state.legs,
        follow(first, inputs).state.bytes == first.state.bytes,
    decreases inputs.len(),
{
    if inputs.len() > 0 {
        let before = follow(first, inputs.drop_last());
        lemma_follow_keeps(first, inputs.drop_last());
        if !(before.request is Finish) {
            lemma_advance_keeps(before.state, inputs.last());
        }
    }
}

/// One answer changes neither the legs nor the payload.
pub proof fn lemma_advance_keeps(state: Master, input: Input)
    ensures
        state.advance(input).state.legs == state.legs,
        state.advance(input).state.bytes == state.bytes,
{
    assert forall|s: Master, ops: Seq<Op>, control: Control|
        (#[trigger] s.settle(ops, control)).state.legs == s.legs && s.settle(
            ops,
            control,
        ).state.bytes == s.bytes by {
        crate::i2c::lemma_settle_keeps(s, ops, control);
    }
}

/// Within all the buffers joined, buffer `i` stands between the lengths of
/// the first `i` and of the first `i + 1`.
pub proof fn lemma_joined_part(buffers: Seq<Seq<u8>>, i: nat, n: nat)
    requires
        i < n,
    ensures
        joined(buffers, n).subrange(
            joined(buffers, i).len() as int,
            (joined(buffers, i).len() + buffers[i as int].len()) as int,
        ) == buffers[i as int],
        joined(buffers, i).len() + buffers[i as int].len() <= joined(buffers, n).len(),
    decreases n,
{
    let whole = joined(buffers, n);
    let start = joined(buffers, i).len() as int;
    let end = start + buffers[i as int].len();
    if i + 1 == n {
        assert(whole.subrange(start, end) =~= buffers[i as int]);
    } else {
        let shorter = joined(buffers, (n - 1) as nat);
        lemma_joined_part(buffers, i, (n - 1) as nat);
        assert(whole.subrange(start, end) =~= shorter.subrange(start, end));
    }
}

/// What the first `k` legs amount to depends on those legs alone.
pub proof fn lemma_legs_tally_prefix(a: Seq<Leg>, b: Seq<Leg>, bytes: Seq<u8>, k: nat)
    requires
        k <= a.len(),
        k <= b.len(),
        forall|i: int| 0 <= i < k ==> a[i] == b[i],
    ensures
        legs_tally(a, bytes, k) == legs_tally(b, bytes, k),
    decreases k,
{
    if k > 0 {
        lemma_legs_tally_prefix(a, b, bytes, (k - 1) as nat);
    }
}

/// The legs scanned from the first `n` buffers of a blocking vectored write
/// amount to those buffers joined, with one address phase if any of them
/// holds a byte, and no STOP yet.
pub proof fn lemma_scanned_tally(buffers: Seq<Seq<u8>>, n: nat)
    requires
        n <= buffers.len() <= usize::MAX,
        joined(buffers, buffers.len()).len() <= usize::MAX,
    ensures
        ({
            let legs = scanned(buffers, n, false);
            let total = legs_tally(legs, joined(buffers, buffers.len()), legs.len());
            &&& total.sent == joined(buffers, n)
            &&& total.starts == (if legs.len() > 0 {
                1nat
            } else {
                0nat
            })
            &&& total.stops == 0
        }),
    decreases n,
{
    let whole = joined(buffers, buffers.len());
    let legs = scanned(buffers, n, false);
    if n > 0 {
        let i = (n - 1) as nat;
        let before = scanned(buffers, i, false);
        lemma_scanned_tally(buffers, i);
        if buffers[i as int].len() > 0 {
            lemma_scanned_shape(buffers, n, false);
            lemma_joined_part(buffers, i, buffers.len());
            lemma_legs_tally_prefix(legs, before, whole, before.len());
            let leg = legs[before.len() as int];
            assert(leg == open_leg(buffers, i as int, before.len() == 0, false));
            crate::i2c::lemma_joined_grows(buffers, i, buffers.len());
            assert(leg.offset == joined(buffers, i).len());
            assert(leg.len == buffers[i as int].len());
            assert(legs_tally(legs, whole, legs.len()).sent =~= joined(buffers, n));
        } else {
            assert(joined(buffers, n) =~= joined(buffers, i));
        }
    }
}

/// The legs of a blocking vectored write amount to all the buffers joined,
/// one address phase and one STOP, whichever buffers are empty.
pub proof fn lemma_vectored_tally(buffers: Seq<Seq<u8>>)
    requires
        0 < buffers.len() <= usize::MAX,
        joined(buffers, buffers.len()).len() <= usize::MAX,
    ensures
        ({
            let legs = vectored_legs(buffers, false);
            let total = legs_tally(legs, joined(buffers, buffers.len()), legs.len());
            &&& total.sent == joined(buffers, buffers.len())
            &&& total.starts == 1
            &&& total.stops == 1
        }),
{
    let whole = joined(buffers, buffers.len());
    let open = scanned(buffers, buffers.len(), false);
    let legs = vectored_legs(buffers, false);
    lemma_scanned_tally(buffers, buffers.len());
    lemma_scanned_shape(buffers, buffers.len(), false);
    if open.len() == 0 {
        assert(legs_tally(legs, whole, 1) == legs_tally(legs, whole, 0).plus(
            leg_tally(legs[0], whole),
        ));
        assert(legs_tally(legs, whole, 1).sent =~= whole);
    } else {
        let m = (open.len() - 1) as nat;
        lemma_legs_tally_prefix(legs, open, whole, m);
        let last = open[m as int];
        assert(legs[m as int] == closing(last));
        assert(legs_tally(open, whole, open.len()) == legs_tally(open, whole, m).plus(
            leg_tally(last, whole),
        ));
        assert(legs_tally(legs, whole, legs.len()) == legs_tally(legs, whole, m).plus(
            leg_tally(closing(last), whole),
        ));
    }
}

/// Every leg of a vectored write finds its bytes: a leg that the DMA engine
/// moves holds a byte, and a blocking leg lies within the buffers joined.
pub proof fn lemma_vectored_fits(buffers: Seq<Seq<u8>>, dma: bool)
    requires
        buffers.len() <= usize::MAX,
        joined(buffers, buffers.len()).len() <= usize::MAX,
    ensures
        forall|k: int|
            0 <= k < vectored_legs(buffers, dma).len() ==> (#[trigger] vectored_legs(
                buffers,
                dma,
            )[k]).fits(
                if dma {
                    0
                } else {
                    joined(buffers, buffers.len()).len()
                },
            ),
{
    let open = scanned(buffers, buffers.len(), dma);
    let legs = vectored_legs(buffers, dma);
    lemma_scanned_shape(buffers, buffers.len(), dma);
    assert forall|k: int| 0 <= k < legs.len() implies (#[trigger] legs[k]).fits(
        if dma {
            0
        } else {
            joined(buffers, buffers.len()).len()
        },
    ) by {
        if buffers.len() > 0 && open.len() > 0 {
            let leg = open[k];
            lemma_joined_part(buffers, leg.buffer as nat, buffers.len());
        }
    }
}

/// A blocking write that ends well has written its bytes to the transmit
/// register, each once and in order, in the chunks of its length, after
/// one address phase and before one STOP.
pub proof fn lemma_blocking_write(data: Seq<u8>, address: u8, inputs: Seq<Input>)
    requires
        data.len() <= usize::MAX,
    ensures
        ({
            let end = follow(
                Master::begin(
                    seq![write_leg(data.len() as usize, 0, 0, false, true, true, Ending::Release)],
                    data,
                    address,
                    true,
                ),
                inputs,
            );
            end.request == Request::<()>::Finish(Ok(())) ==> {
                &&& tally(end.ops).sent == data
                &&& tally(end.ops).programmed == chunks(data.len(), true)
                &&& tally(end.ops).starts == 1
                &&& tally(end.ops).stops == 1
            }
        }),
{
    let leg = write_leg(data.len() as usize, 0, 0, false, true, true, Ending::Release);
    let legs = seq![leg];
    lemma_operation_complete(legs, data, address, true, inputs);
    assert(legs_tally(legs, data, 1) == legs_tally(legs, data, 0).plus(leg_tally(legs[0], data)));
    assert(data.subrange(0, data.len() as int) =~= data);
    lemma_same(
        legs_tally(legs, data, 1),
        Tally { sent: data, programmed: chunks(data.len(), true), starts: 1, stops: 1 },
    );
}

/// A read that ends well, blocking or by DMA, was programmed in the chunks
/// of its length after one address phase. A blocking read leaves STOP to the
/// peripheral; a read by DMA commands it.
pub proof fn lemma_read(len: usize, dma: bool, address: u8, inputs: Seq<Input>)
    requires
        dma ==> len > 0,
    ensures
        ({
            let end = follow(
                Master::begin(seq![read_leg(len, dma, false)], Seq::empty(), address, false),
                inputs,
            );
            end.request == Request::<()>::Finish(Ok(())) ==> {
                &&& tally(end.ops).sent == Seq::<u8>::empty()
                &&& tally(end.ops).programmed == chunks(len as nat, true)
                &&& tally(end.ops).starts == 1
                &&& tally(end.ops).stops == (if dma {
                    1nat
                } else {
                    0nat
                })
            }
        }),
{
    let legs = seq![read_leg(len, dma, false)];
    let none = Seq::<u8>::empty();
    lemma_operation_complete(legs, none, address, false, inputs);
    assert(legs_tally(legs, none, 1) == legs_tally(legs, none, 0).plus(leg_tally(legs[0], none)));
    lemma_same(
        legs_tally(legs, none, 1),
        Tally {
            sent: none,
            programmed: chunks(len as nat, true),
            starts: 1,
            stops: if dma {
                1
            } else {
                0
            },
        },
    );
}

/// A blocking write of several buffers that ends well has written the
/// buffers joined, after one address phase and before one STOP, whichever
/// buffers are empty.
pub proof fn lemma_vectored_write(buffers: Seq<Seq<u8>>, address: u8, inputs: Seq<Input>)
    requires
        0 < buffers.len() <= usize::MAX,
        joined(buffers, buffers.len()).len() <= usize::MAX,
    ensures
        ({
            let end = follow(
                Master::begin(
                    vectored_legs(buffers, false),
                    joined(buffers, buffers.len()),
                    address,
                    true,
                ),
                inputs,
            );
            end.request == Request::<()>::Finish(Ok(())) ==> {
                &&& tally(end.ops).sent == joined(buffers, buffers.len())
                &&& tally(end.ops).starts == 1
                &&& tally(end.ops).stops == 1
            }
        }),
{
    let legs = vectored_legs(buffers, false);
    let bytes = joined(buffers, buffers.len());
    lemma_vectored_fits(buffers, false);
    lemma_operation_complete(legs, bytes, address, true, inputs);
    lemma_vectored_tally(buffers);
}

/// On the wire a write of several buffers is a write of the buffers joined:
/// where both end well, the same bytes went out in the same order, with one
/// address phase and one STOP each, whatever the hardware answered to either
/// and wherever the chunk boundaries fell.
pub proof fn lemma_vectored_as_one(
    buffers: Seq<Seq<u8>>,
    address: u8,
    inputs: Seq<Input>,
    other_inputs: Seq<Input>,
)
    requires
        0 < buffers.len() <= usize::MAX,
        joined(buffers, buffers.len()).len() <= usize::MAX,
    ensures
        ({
            let whole = joined(buffers, buffers.len());
            let many = follow(
                Master::begin(vectored_legs(buffers, false), whole, address, true),
                inputs,
            );
            let one = follow(
                Master::begin(
                    seq![write_leg(whole.len() as usize, 0, 0, false, true, true, Ending::Release)],
                    whole,
                    address,
                    true,
                ),
                other_inputs,
            );
            many.request == Request::<()>::Finish(Ok(())) && one.request == Request::<
                (),
            >::Finish(Ok(())) ==> {
                &&& tally(many.ops).sent == tally(one.ops).sent
                &&& tally(many.ops).starts == tally(one.ops).starts
                &&& tally(many.ops).stops == tally(one.ops).stops
            }
        }),
{
    lemma_vectored_write(buffers, address, inputs);
    lemma_blocking_write(joined(buffers, buffers.len()), address, other_inputs);
}

/// One answer adds a byte to those received exactly where the receive
/// register was asked for and a word came.
pub proof fn lemma_advance_received(state: Master, input: Input)
    ensures
        state.advance(input).state.received == (match (state.phase, input) {
            (Phase::Data, Input::Word(word)) => state.received.push(received_byte(word)),
            _ => state.received,
        }),
{
    assert forall|s: Master, ops: Seq<Op>, control: Control|
        (#[trigger] s.settle(ops, control)).state.received == s.received by {
        crate::i2c::lemma_settle_keeps(s, ops, control);
    }
}

/// What the engine has received is what the receive register delivered, in
/// order.
pub proof fn lemma_follow_received(first: Outcome<Master, ()>, inputs: Seq<Input>)
    requires
        holds(first),
        first.state.received == Seq::<u8>::empty(),
    ensures
        follow(first, inputs).state.received == heard(first, inputs),
    decreases inputs.len(),
{
    if inputs.len() > 0 {
        let before = follow(first, inputs.drop_last());
        lemma_follow_received(first, inputs.drop_last());
        lemma_follow_holds(first, inputs.drop_last());
        if !(before.request is Finish) {
            lemma_advance_received(before.state, inputs.last());
        }
    }
}

/// A blocking read that ends well has taken in as many bytes as were asked
/// for, and they are the bytes that the receive register delivered, in
/// order.
pub proof fn lemma_blocking_read(len: usize, address: u8, inputs: Seq<Input>)
    ensures
        ({
            let first = Master::begin(
                seq![read_leg(len, false, false)],
                Seq::empty(),
                address,
                false,
            );
            let end = follow(first, inputs);
            end.request == Request::<()>::Finish(Ok(())) ==> {
                &&& end.state.received.len() == len
                &&& end.state.received == heard(first, inputs)
            }
        }),
{
    let legs = seq![read_leg(len, false, false)];
    let first = Master::begin(legs, Seq::empty(), address, false);
    lemma_begin_holds(legs, Seq::empty(), address, false);
    lemma_follow_holds(first, inputs);
    lemma_follow_keeps(first, inputs);
    crate::i2c::lemma_settle_keeps(
        Master::armed(legs, Seq::empty(), address, false),
        Seq::empty(),
        Control::Enter,
    );
    lemma_follow_received(first, inputs);
    assert(reads_total(legs, 1) == reads_total(legs, 0) + len);
}

/// A step ends the operation with an error only through a failure, and then
/// with the commands of a failure.
pub proof fn lemma_settle_fails(state: Master, ops: Seq<Op>, control: Control)
    ensures
        ({
            let out = state.settle(ops, control);
            out.request matches Request::Finish(Err(error)) ==> control == Control::Fail(error)
                && out.ops == state.fail_onto(ops)
        }),
    decreases state.legs.len() - state.leg, control.rank(),
{
    let leg = state.current();
    match control {
        Control::Enter => {
            if !leg.dma {
                lemma_settle_fails(state, ops, Control::Open);
            }
        },
        Control::Open => {
            if leg.first && !(leg.write || !leg.restart) {
                lemma_settle_fails(state, ops, Control::Program);
            }
        },
        Control::Program => {
            if !leg.dma {
                lemma_settle_fails(
                    Master {
                        chunk: state.chunk + 1,
                        programmed: state.programmed + chunk_size(leg.len as nat, state.programmed),
                        ..state
                    },
                    leg.program_onto(ops, state.programmed, state.address),
                    Control::Bytes,
                );
            }
        },
        Control::Bytes => {
            if !(state.done < leg.len) {
                lemma_settle_fails(state, ops, Control::Close);
            }
        },
        Control::Close => {
            if leg.ending == Ending::Open {
                lemma_settle_fails(state, ops, Control::Finish);
            }
        },
        Control::Released => {
            if leg.ending == Ending::Release {
                lemma_settle_fails(state, ops.push(stop_op()), Control::Finish);
            } else {
                lemma_settle_fails(state, ops, Control::Finish);
            }
        },
        Control::Finish => {
            if state.leg + 1 < state.legs.len() {
                lemma_settle_fails(
                    Master { leg: state.leg + 1, chunk: 0, programmed: 0, done: 0, ..state },
                    if leg.dma {
                        ops.push(Op::ModifyCr1(leg.teardown()))
                    } else {
                        ops
                    },
                    Control::Enter,
                );
            }
        },
        Control::Fail(_) => {},
    }
}

/// Whatever makes an operation fail, the failing step ends with the cleanup:
/// STOP is commanded where the operation releases the bus, and where a DMA
/// leg is under way the last command switches DMA requests and the
/// completion interrupt off.
pub proof fn lemma_failure_cleans_up(state: Master, input: Input)
    ensures
        ({
            let out = state.advance(input);
            out.request matches Request::Finish(Err(_)) ==> {
                &&& state.fail_stop ==> out.ops.contains(stop_op())
                &&& state.current().dma ==> out.ops.len() > 0 && out.ops.last() == Op::ModifyCr1(
                    state.current().abort(),
                )
                &&& !state.fail_stop && !state.current().dma ==> !out.ops.contains(stop_op())
            }
        }),
{
    let out = state.advance(input);
    assert forall|s: Master, ops: Seq<Op>, control: Control|
        match (#[trigger] s.settle(ops, control)).request {
            Request::Finish(Err(error)) => control == Control::Fail(error) && s.settle(
                ops,
                control,
            ).ops == s.fail_onto(ops),
            _ => true,
        } by {
        lemma_settle_fails(s, ops, control);
    }
    if out.request matches Request::Finish(Err(_)) {
        let none = Seq::<Op>::empty();
        let stop = stop_op();
        let off = Op::ModifyCr1(state.current().abort());
        assert forall|ops: Seq<Op>| !ops.contains(stop) implies {
            &&& state.fail_stop ==> (#[trigger] state.fail_onto(ops)).contains(stop)
            &&& state.current().dma ==> state.fail_onto(ops).len() > 0 && state.fail_onto(
                ops,
            ).last() == off
            &&& !state.fail_stop && !state.current().dma ==> !state.fail_onto(ops).contains(stop)
        } by {
            let stopped = if state.fail_stop {
                ops.push(stop)
            } else {
                ops
            };
            if state.fail_stop {
                assert(stopped[ops.len() as int] == stop);
                if state.current().dma {
                    assert(stopped.push(off)[ops.len() as int] == stop);
                }
            }
        }
        assert(!none.contains(stop));
        assert(!seq![Op::WriteIcr(Flag::Berr)].contains(stop));
        assert(!seq![Op::WriteIcr(Flag::Arlo)].contains(stop));
        assert(!seq![Op::FlushTransmit].contains(stop));
    }
}

/// A step that ends the operation well on a DMA leg ends with the command
/// that switches the completion interrupt off, and DMA requests with it
/// where the leg is the last of its transfer.
pub proof fn lemma_settle_succeeds(state: Master, ops: Seq<Op>, control: Control)
    ensures
        ({
            let out = state.settle(ops, control);
            out.request == Request::<()>::Finish(Ok(())) && out.state.current().dma
                ==> out.ops.len() > 0 && out.ops.last() == Op::ModifyCr1(
                out.state.current().teardown(),
            )
        }),
    decreases state.legs.len() - state.leg, control.rank(),
{
    let leg = state.current();
    match control {
        Control::Enter => {
            if !leg.dma {
                lemma_settle_succeeds(state, ops, Control::Open);
            }
        },
        Control::Open => {
            if leg.first && !(leg.write || !leg.restart) {
                lemma_settle_succeeds(state, ops, Control::Program);
            }
        },
        Control::Program => {
            if !leg.dma {
                lemma_settle_succeeds(
                    Master {
                        chunk: state.chunk + 1,
                        programmed: state.programmed + chunk_size(leg.len as nat, state.programmed),
                        ..state
                    },
                    leg.program_onto(ops, state.programmed, state.address),
                    Control::Bytes,
                );
            }
        },
        Control::Bytes => {
            if !(state.done < leg.len) {
                lemma_settle_succeeds(state, ops, Control::Close);
            }
        },
        Control::Close => {
            if leg.ending == Ending::Open {
                lemma_settle_succeeds(state, ops, Control::Finish);
            }
        },
        Control::Released => {
            if leg.ending == Ending::Release {
                lemma_settle_succeeds(state, ops.push(stop_op()), Control::Finish);
            } else {
                lemma_settle_succeeds(state, ops, Control::Finish);
            }
        },
        Control::Finish => {
            if state.leg + 1 < state.legs.len() {
                lemma_settle_succeeds(
                    Master { leg: state.leg + 1, chunk: 0, programmed: 0, done: 0, ..state },
                    if leg.dma {
                        ops.push(Op::ModifyCr1(leg.teardown()))
                    } else {
                        ops
                    },
                    Control::Enter,
                );
            }
        },
        Control::Fail(_) => {},
    }
}

/// A step that ends the operation well on a DMA leg ends with the command
/// that switches the completion interrupt off, and DMA requests with it
/// where the leg is the last of its transfer.
pub proof fn lemma_success_cleans_up(state: Master, input: Input)
    ensures
        ({
            let out = state.advance(input);
            out.request == Request::<()>::Finish(Ok(())) && out.state.current().dma
                ==> out.ops.len() > 0 && out.ops.last() == Op::ModifyCr1(
                out.state.current().teardown(),
            )
        }),
{
    assert forall|s: Master, ops: Seq<Op>, control: Control|
        (#[trigger] s.settle(ops, control)).request == Request::<()>::Finish(Ok(())) && s.settle(
            ops,
            control,
        ).state.current().dma implies s.settle(ops, control).ops.len() > 0 && s.settle(
        ops,
        control,
    ).ops.last() == Op::ModifyCr1(s.settle(ops, control).state.current().teardown()) by {
        lemma_settle_succeeds(s, ops, control);
    }
}

/// Once a chunk is programmed the counters are still within the leg.
proof fn lemma_program_within(state: Master)
    requires
        state.ready(Control::Program),
    ensures
        (Master {
            chunk: state.chunk + 1,
            programmed: state.programmed + chunk_size(
                state.current().len as nat,
                state.programmed,
            ),
            ..state
        }).within(),
        state.chunk == 0 <==> state.programmed == 0,
{
}

/// Programming a chunk carries the transfer on by one chunk, unless the
/// chunk opens the transfer.
proof fn lemma_program_reloads(leg: Leg, ops: Seq<Op>, at: nat, address: u8)
    ensures
        continuations(tally(leg.program_onto(ops, at, address))) - continuations(tally(ops)) == (
        if leg.first && at == 0 {
            0int
        } else {
            1int
        }),
{
    let update = Op::ModifyCr2(leg.program(at, address));
    lemma_tally_push(ops, update);
    if leg.dma && !(leg.first && at == 0) {
        lemma_tally_push(ops.push(update), crate::master::rearm_op());
    }
}

/// The commands around a leg carry no transfer on: neither those that
/// enable and start the DMA engine, nor STOP, nor those that end a leg or
/// clean up after a failure.
proof fn lemma_frame_reloads(state: Master, ops: Seq<Op>)
    ensures
        ({
            let leg = state.current();
            let entered = ops.push(Op::ModifyCr1(leg.setup())).push(leg.start_dma());
            let left = ops.push(Op::ModifyCr1(leg.teardown()));
            &&& continuations(tally(entered)) == continuations(tally(ops))
            &&& continuations(tally(left)) == continuations(tally(ops))
            &&& continuations(tally(ops.push(stop_op()))) == continuations(tally(ops))
            &&& continuations(tally(state.fail_onto(ops))) == continuations(tally(ops))
        }),
{
    let leg = state.current();
    lemma_tally_push(ops, Op::ModifyCr1(leg.setup()));
    lemma_tally_push(ops.push(Op::ModifyCr1(leg.setup())), leg.start_dma());
    lemma_tally_push(ops, Op::ModifyCr1(leg.teardown()));
    lemma_tally_push(ops, stop_op());
    let stopped = if state.fail_stop {
        ops.push(stop_op())
    } else {
        ops
    };
    lemma_tally_push(stopped, Op::ModifyCr1(leg.abort()));
}

/// Within one step only the decision to program can carry a transfer on
/// with another chunk, and it does so once, unless the chunk opens the
/// transfer.
#[verifier::rlimit(50)]
pub proof fn lemma_settle_reloads(state: Master, ops: Seq<Op>, control: Control)
    requires
        state.ready(control),
    ensures
        continuations(tally(state.settle(ops, control).ops)) - continuations(tally(ops)) == (
        if control == Control::Program && !(state.current().first && state.chunk == 0) {
            1int
        } else {
            0int
        }),
    decreases state.legs.len() - state.leg, control.rank(),
{
    let leg = state.current();
    lemma_frame_reloads(state, ops);
    match control {
        Control::Enter => {
            if !leg.dma {
                lemma_settle_reloads(state, ops, Control::Open);
            }
        },
        Control::Open => {
            if leg.first && !(leg.write || !leg.restart) {
                lemma_settle_reloads(state, ops, Control::Program);
            }
        },
        Control::Program => {
            let next = Master {
                chunk: state.chunk + 1,
                programmed: state.programmed + chunk_size(leg.len as nat, state.programmed),
                ..state
            };
            let queue = leg.program_onto(ops, state.programmed, state.address);
            lemma_program_within(state);
            lemma_program_reloads(leg, ops, state.programmed, state.address);
            if !leg.dma {
                lemma_settle_reloads(next, queue, Control::Bytes);
            }
        },
        Control::Bytes => {
            if !(state.done < leg.len) {
                lemma_settle_reloads(state, ops, Control::Close);
            }
        },
        Control::Close => {
            if leg.ending == Ending::Open {
                lemma_settle_reloads(state, ops, Control::Finish);
            }
        },
        Control::Released => {
            if leg.ending == Ending::Release {
                lemma_settle_reloads(state, ops.push(stop_op()), Control::Finish);
            } else {
                lemma_settle_reloads(state, ops, Control::Finish);
            }
        },
        Control::Finish => {
            if state.leg + 1 < state.legs.len() {
                lemma_settle_reloads(
                    Master { leg: state.leg + 1, chunk: 0, programmed: 0, done: 0, ..state },
                    if leg.dma {
                        ops.push(Op::ModifyCr1(leg.teardown()))
                    } else {
                        ops
                    },
                    Control::Enter,
                );
            }
        },
        Control::Fail(_) => {},
    }
}

/// The byte counter is never reprogrammed for the next chunk before the
/// reload flag of the chunk before it was seen: a step of a running
/// operation carries the transfer on with another chunk only where it
/// answers the poll for that flag with a status word that shows it.
#[verifier::rlimit(50)]
pub proof fn lemma_reload_observed(before: Outcome<Master, ()>, input: Input)
    requires
        holds(before),
        !(before.request is Finish),
    ensures
        ({
            let out = before.state.advance(input);
            continuations(tally(out.ops)) > 0 ==> {
                &&& before.state.phase == Phase::Polling(Awaited::Reload)
                &&& input matches Input::Word(word) && Status::of(word).tcr
            }
        }),
{
    let state = before.state;
    let leg = state.current();
    let none = Seq::<Op>::empty();
    assert(continuations(tally(none)) == 0);
    match (state.phase, input) {
        (Phase::Polling(awaited), Input::Word(word)) => {
            let status = Status::of(word);
            let berr = seq![Op::WriteIcr(Flag::Berr)];
            let arlo = seq![Op::WriteIcr(Flag::Arlo)];
            let nack = seq![Op::WriteIcr(Flag::Nack)];
            lemma_tally_push(none, Op::WriteIcr(Flag::Berr));
            lemma_tally_push(none, Op::WriteIcr(Flag::Arlo));
            lemma_tally_push(none, Op::WriteIcr(Flag::Nack));
            assert(none.push(Op::WriteIcr(Flag::Berr)) =~= berr);
            assert(none.push(Op::WriteIcr(Flag::Arlo)) =~= arlo);
            assert(none.push(Op::WriteIcr(Flag::Nack)) =~= nack);
            lemma_settle_reloads(state, berr, Control::Fail(Error::Bus));
            lemma_settle_reloads(state, arlo, Control::Fail(Error::Arbitration));
            match awaited {
                Awaited::StartCleared => {
                    lemma_settle_reloads(state, none, Control::Program);
                },
                Awaited::Reload => {
                    lemma_settle_reloads(state, none, Control::Program);
                },
                Awaited::TransmitEmpty => {
                    let byte = state.bytes[leg.offset + state.done];
                    let ops = seq![Op::WriteTxdr(byte)];
                    lemma_tally_push(none, Op::WriteTxdr(byte));
                    assert(none.push(Op::WriteTxdr(byte)) =~= ops);
                    lemma_settle_reloads(Master { done: state.done + 1, ..state }, ops, Control::Bytes);
                },
                Awaited::ReceiveFull => {},
                Awaited::Complete => {
                    lemma_settle_reloads(state, none, Control::Released);
                },
            }
        },
        (Phase::Deadline(_), Input::Expired(true)) => {
            lemma_settle_reloads(state, none, Control::Fail(Error::Timeout));
        },
        (Phase::Data, Input::Word(word)) => {
            lemma_settle_reloads(
                Master {
                    received: state.received.push(received_byte(word)),
                    done: state.done + 1,
                    ..state
                },
                none,
                Control::Bytes,
            );
        },
        (Phase::FlushPending, Input::Word(word)) => {
            lemma_tally_push(none, Op::WriteTxdr(0));
            assert(none.push(Op::WriteTxdr(0)) =~= seq![Op::WriteTxdr(0)]);
        },
        (Phase::FlushEmpty, Input::Word(word)) => {
            lemma_tally_push(none, Op::FlushTransmit);
            assert(none.push(Op::FlushTransmit) =~= seq![Op::FlushTransmit]);
            lemma_settle_reloads(state, none, Control::Fail(Error::Nack));
            lemma_settle_reloads(state, seq![Op::FlushTransmit], Control::Fail(Error::Nack));
        },
        (Phase::Flags, Input::Word(word)) => {
            if state.chunk == 0 {
                lemma_settle_reloads(state, none, Control::Open);
            }
        },
        (Phase::Suspended, Input::Expired(true)) => {
            lemma_settle_reloads(state, none, Control::Fail(Error::Timeout));
        },
        (Phase::Dma, Input::DmaDone) => {
            lemma_settle_reloads(state, none, Control::Close);
        },
        (Phase::Dma, Input::Expired(true)) => {
            lemma_settle_reloads(state, none, Control::Fail(Error::Timeout));
        },
        _ => {},
    }
}

/// Abandoning an operation while a DMA leg is under way hands out one
/// command, and once that command is carried out control register 1 shows
/// the completion interrupt and the DMA requests of the leg's direction
/// disabled, whatever it held before.
pub proof fn lemma_cancel_disables(state: Master, word: u32)
    requires
        state.phase != Phase::Idle,
        state.current().dma,
    ensures
        state.cancel().0.phase == Phase::Idle,
        state.cancel().1 == seq![Op::ModifyCr1(state.current().abort())],
        !bit_get(state.cancel().1[0].word_spec(word), 6),
        state.current().write ==> !bit_get(state.cancel().1[0].word_spec(word), 14),
        !state.current().write ==> !bit_get(state.cancel().1[0].word_spec(word), 15),
{
    crate::regs::lemma_enables_off(state.current().abort(), word, state.current().write);
}

/// A decision before transfer-complete is awaited ends the operation well
/// only on a leg that awaits nothing.
pub proof fn lemma_settle_open(state: Master, ops: Seq<Op>, control: Control)
    requires
        !(control is Fail) && !(control is Released),
        control is Finish ==> state.current().ending == Ending::Open,
    ensures
        ({
            let out = state.settle(ops, control);
            out.request == Request::<()>::Finish(Ok(())) ==> out.state.current().ending
                == Ending::Open
        }),
    decreases state.legs.len() - state.leg, control.rank(),
{
    let leg = state.current();
    match control {
        Control::Enter => {
            if !leg.dma {
                lemma_settle_open(state, ops, Control::Open);
            }
        },
        Control::Open => {
            if leg.first && !(leg.write || !leg.restart) {
                lemma_settle_open(state, ops, Control::Program);
            }
        },
        Control::Program => {
            if !leg.dma {
                lemma_settle_open(
                    Master {
                        chunk: state.chunk + 1,
                        programmed: state.programmed + chunk_size(leg.len as nat, state.programmed),
                        ..state
                    },
                    leg.program_onto(ops, state.programmed, state.address),
                    Control::Bytes,
                );
            }
        },
        Control::Bytes => {
            if !(state.done < leg.len) {
                lemma_settle_open(state, ops, Control::Close);
            }
        },
        Control::Close => {
            if leg.ending == Ending::Open {
                lemma_settle_open(state, ops, Control::Finish);
            }
        },
        Control::Finish => {
            if state.leg + 1 < state.legs.len() {
                lemma_settle_open(
                    Master { leg: state.leg + 1, chunk: 0, programmed: 0, done: 0, ..state },
                    if leg.dma {
                        ops.push(Op::ModifyCr1(leg.teardown()))
                    } else {
                        ops
                    },
                    Control::Enter,
                );
            }
        },
        _ => {},
    }
}

/// Once transfer-complete was seen on a leg that releases the bus, an
/// operation that ends well in that step has commanded STOP, and as its last
/// command where the engine moved the bytes itself.
pub proof fn lemma_settle_released(state: Master, ops: Seq<Op>)
    requires
        state.current().ending == Ending::Release,
    ensures
        ({
            let out = state.settle(ops, Control::Released);
            out.request == Request::<()>::Finish(Ok(())) && out.state.current().ending
                == Ending::Release ==> {
                &&& out.ops.contains(stop_op())
                &&& !out.state.current().dma ==> out.ops.last() == stop_op()
            }
        }),
{
    let leg = state.current();
    let stopped = ops.push(stop_op());
    let left = if leg.dma {
        stopped.push(Op::ModifyCr1(leg.teardown()))
    } else {
        stopped
    };
    assert(stopped[ops.len() as int] == stop_op());
    assert(left[ops.len() as int] == stop_op());
    assert(state.settle(ops, Control::Released) == state.settle(stopped, Control::Finish));
    if state.leg + 1 < state.legs.len() {
        let next = Master { leg: state.leg + 1, chunk: 0, programmed: 0, done: 0, ..state };
        assert(state.settle(stopped, Control::Finish) == next.settle(left, Control::Enter));
        lemma_settle_open(next, left, Control::Enter);
    } else {
        assert(state.settle(stopped, Control::Finish).ops == left);
    }
}

/// An operation whose last leg awaits transfer-complete ends well only in
/// the step that sees transfer-complete. Where that leg releases the bus,
/// the step commands STOP, and as its last command where the engine moved
/// the bytes itself: STOP follows every byte.
pub proof fn lemma_stop_after_complete(state: Master, input: Input)
    ensures
        ({
            let out = state.advance(input);
            out.request == Request::<()>::Finish(Ok(())) && out.state.current().ending
                != Ending::Open ==> {
                &&& state.phase == Phase::Polling(Awaited::Complete)
                &&& input matches Input::Word(word) && Status::of(word).tc
                &&& out.state.current().ending == Ending::Release ==> {
                    &&& out.ops.contains(stop_op())
                    &&& !out.state.current().dma ==> out.ops.last() == stop_op()
                }
            }
        }),
{
    let out = state.advance(input);
    assert forall|s: Master, ops: Seq<Op>, control: Control|
        !(control is Fail) && !(control is Released) && !(control is Finish) && (
        #[trigger] s.settle(ops, control)).request == Request::<()>::Finish(Ok(()))
        implies s.settle(ops, control).state.current().ending == Ending::Open by {
        lemma_settle_open(s, ops, control);
    }
    assert forall|s: Master, ops: Seq<Op>, control: Control|
        match (#[trigger] s.settle(ops, control)).request {
            Request::Finish(Err(error)) => control == Control::Fail(error),
            _ => true,
        } by {
        lemma_settle_fails(s, ops, control);
    }
    if out.request == Request::<()>::Finish(Ok(())) && out.state.current().ending
        != Ending::Open {
        let none = Seq::<Op>::empty();
        let leg = state.current();
        if leg.ending == Ending::Release {
            lemma_settle_released(state, none);
        } else if leg.ending == Ending::Hold {
            if state.leg + 1 < state.legs.len() {
                lemma_settle_open(
                    Master { leg: state.leg + 1, chunk: 0, programmed: 0, done: 0, ..state },
                    if leg.dma {
                        none.push(Op::ModifyCr1(leg.teardown()))
                    } else {
                        none
                    },
                    Control::Enter,
                );
            }
        } else {
            lemma_settle_open(state, none, Control::Finish);
        }
    }
}

/// A write by DMA that ends well was programmed in the chunks of its
/// length, after one address phase and before one STOP; the engine itself
/// wrote no byte.
pub proof fn lemma_dma_write(len: usize, address: u8, inputs: Seq<Input>)
    requires
        len > 0,
    ensures
        ({
            let end = follow(
                Master::begin(
                    seq![write_leg(len, 0, 0, true, true, true, Ending::Release)],
                    Seq::empty(),
                    address,
                    true,
                ),
                inputs,
            );
            end.request == Request::<()>::Finish(Ok(())) ==> {
                &&& tally(end.ops).sent == Seq::<u8>::empty()
                &&& tally(end.ops).programmed == chunks(len as nat, true)
                &&& tally(end.ops).starts == 1
                &&& tally(end.ops).stops == 1
            }
        }),
{
    let legs = seq![write_leg(len, 0, 0, true, true, true, Ending::Release)];
    let none = Seq::<u8>::empty();
    lemma_operation_complete(legs, none, address, true, inputs);
    assert(legs_tally(legs, none, 1) == legs_tally(legs, none, 0).plus(leg_tally(legs[0], none)));
    lemma_same(
        legs_tally(legs, none, 1),
        Tally { sent: none, programmed: chunks(len as nat, true), starts: 1, stops: 1 },
    );
}

} // verus!
