//! A bus on which nothing goes wrong: every operation ends well on it,
//! within a number of steps that its legs fix.
use vstd::prelude::*;
use crate::chunk::{chunk_count, chunk_size, chunks};
use crate::engine::{Input, Op, Outcome, Request};
use crate::i2c::{joined, read_leg, vectored_legs, write_leg};
use crate::laws::{
    holds, lemma_advance_holds, lemma_begin_holds, lemma_blocking_read, lemma_blocking_write,
    lemma_dma_write, lemma_read, lemma_settle_fails, lemma_vectored_fits, lemma_vectored_write,
};
use crate::master::{pending, stop_op, Awaited, Control, Ending, Leg, Master, Phase};
use crate::regs::{received_byte, start_pending, Status};
use crate::trace::{follow, heard, tally};

verus! {

/// Whether `input` is what a bus answers to `request` on which nothing goes
/// wrong and nothing takes time: START has cleared, the status register
/// shows transmit-empty, receive-full, transfer-complete and reload, a
/// sleeping task is woken, and the DMA engine completes.
pub open spec fn cooperates(request: Request<()>, input: Input) -> bool {
    match request {
        Request::ReadCr2 => input matches Input::Word(word) && !start_pending(word),
        Request::ReadIsr => input matches Input::Word(word) && {
            &&& Status::of(word).txe
            &&& Status::of(word).rxne
            &&& Status::of(word).tc
            &&& Status::of(word).tcr
        },
        Request::ReadRxdr => input is Word,
        Request::CheckDeadline => input == Input::Expired(false),
        Request::Suspend => input == Input::Woken,
        Request::AwaitDma => input == Input::DmaDone,
        _ => true,
    }
}

/// Whether every answer of a run is that of a bus on which nothing goes
/// wrong.
pub open spec fn cooperative(first: Outcome<Master, ()>, inputs: Seq<Input>) -> bool {
    forall|i: int|
        0 <= i < inputs.len() ==> cooperates(
            follow(first, #[trigger] inputs.take(i)).request,
            inputs[i],
        )
}

/// The steps that the bytes of a leg still take: one for each byte to
/// write, two for each byte to read.
pub open spec fn moving_work(leg: Leg, done: nat) -> int {
    if leg.write {
        leg.len - done
    } else {
        2 * (leg.len - done)
    }
}

/// The step that ends a leg which waits for transfer-complete.
pub open spec fn closing_work(leg: Leg) -> nat {
    if leg.ending == Ending::Open {
        0
    } else {
        1
    }
}

/// The steps that the chunks still take once `chunk` of them are
/// programmed, and with a blocking leg its bytes after `done` of them: a
/// blocking leg polls once for each chunk; a DMA leg polls, sleeps and reads
/// the flags for each.
pub open spec fn chunk_work(leg: Leg, chunk: nat, done: nat) -> int {
    if leg.dma {
        3 * (chunk_count(leg.len as nat) - chunk)
    } else {
        moving_work(leg, done) + (chunk_count(leg.len as nat) - chunk)
    }
}

/// The most steps that a leg takes on a cooperative bus: those of its
/// chunks and bytes and the one that ends it, and with a DMA leg the first
/// look at the flags and the wait for the DMA engine.
pub open spec fn leg_work(leg: Leg) -> nat {
    (chunk_work(leg, 0, 0) + closing_work(leg) + if leg.dma {
        2int
    } else {
        0int
    }) as nat
}

/// The most steps that the legs from number `from` on take.
pub open spec fn rest_work(legs: Seq<Leg>, from: nat) -> nat
    decreases legs.len() - from,
{
    if from >= legs.len() {
        0
    } else {
        leg_work(legs[from as int]) + rest_work(legs, from + 1)
    }
}

/// The most steps still to take from a state, not counting where within a
/// chunk or a byte the engine stands.
pub open spec fn base(state: Master) -> int {
    let leg = state.current();
    rest_work(state.legs, state.leg + 1) + chunk_work(leg, state.chunk, state.done)
        + closing_work(leg)
}

/// The steps that the phase adds to a DMA leg's, or takes off a blocking
/// leg's: a DMA leg that sleeps has three to go before its next chunk or the
/// end of the transfer, one that reads the flags two, one that polls or
/// awaits the DMA engine one; a byte that is being read is half done.
pub open spec fn stage(state: Master) -> int {
    match state.phase {
        Phase::Suspended => 3,
        Phase::Flags => 2,
        Phase::Dma => 1,
        Phase::Polling(Awaited::Reload) | Phase::Polling(Awaited::StartCleared) => if state.current().dma {
            1
        } else {
            0
        },
        Phase::Data => -1,
        _ => 0,
    }
}

/// The most steps still to take from a state.
pub open spec fn work(state: Master) -> int {
    base(state) + stage(state)
}

/// Where an operation stands on a cooperative bus: it polls, reads a byte,
/// sleeps or awaits the DMA engine, and never checks the deadline or
/// flushes.
pub open spec fn calm(state: Master) -> bool {
    &&& state.phase is Polling || state.phase == Phase::Data || state.phase == Phase::Flags
        || state.phase == Phase::Suspended || state.phase == Phase::Dma
    &&& state.phase == Phase::Polling(Awaited::Complete) ==> state.current().ending
        != Ending::Open
}

/// The most steps still to take once a decision is carried out.
pub open spec fn bound(state: Master, control: Control) -> int {
    let dma = state.current().dma;
    match control {
        Control::Enter => base(state) + if dma {
            2int
        } else {
            0int
        },
        Control::Open => base(state) + if dma {
            1int
        } else {
            0int
        },
        Control::Program => if dma {
            base(state)
        } else {
            base(state) - 1
        },
        Control::Released => rest_work(state.legs, state.leg + 1) as int,
        Control::Finish => rest_work(state.legs, state.leg + 1) as int,
        _ => base(state),
    }
}

/// A leg's chunk count is never behind the chunks programmed.
proof fn lemma_within_counts(state: Master)
    requires
        state.within(),
    ensures
        state.chunk <= chunk_count(state.current().len as nat),
        state.done <= state.current().len,
        moving_work(state.current(), state.done) >= 0,
        chunk_work(state.current(), state.chunk, state.done) >= 0,
{
}

/// The work of the legs from one on is that leg's and the rest's.
proof fn lemma_rest_unfold(legs: Seq<Leg>, from: nat)
    requires
        from < legs.len(),
    ensures
        rest_work(legs, from) == leg_work(legs[from as int]) + rest_work(legs, from + 1),
{
}

/// A decision carried to its end either ends the operation well or parks
/// the engine, with no more work left than the decision allows.
#[verifier::rlimit(50)]
pub proof fn lemma_settle_work(state: Master, ops: Seq<Op>, control: Control)
    requires
        state.ready(control),
        !(control is Fail),
    ensures
        ({
            let out = state.settle(ops, control);
            ||| out.request == Request::<()>::Finish(Ok(()))
            ||| {
                &&& out.request == pending(out.state.phase)
                &&& calm(out.state)
                &&& out.state.within()
                &&& out.state.legs == state.legs
                &&& out.state.phase != Phase::Data
                &&& work(out.state) <= bound(state, control)
            }
        }),
    decreases state.legs.len() - state.leg, control.rank(),
{
    let leg = state.current();
    lemma_within_counts(state);
    match control {
        Control::Enter => {
            if leg.dma {
                assert(base(Master { phase: Phase::Flags, ..state }) == base(state));
            } else {
                lemma_settle_work(state, ops, Control::Open);
            }
        },
        Control::Open => {
            if !leg.first {
                assert(base(Master { phase: Phase::Polling(Awaited::Reload), ..state }) == base(
                    state,
                ));
            } else if leg.write || !leg.restart {
                assert(base(Master { phase: Phase::Polling(Awaited::StartCleared), ..state })
                    == base(state));
            } else {
                lemma_settle_work(state, ops, Control::Program);
            }
        },
        Control::Program => {
            let next = Master {
                chunk: state.chunk + 1,
                programmed: state.programmed + chunk_size(leg.len as nat, state.programmed),
                ..state
            };
            lemma_program_counts(state);
            if leg.dma {
                assert(base(next) == base(state) - 3);
                assert(base(Master { phase: Phase::Suspended, ..next }) == base(next));
            } else {
                assert(base(next) == base(state) - 1);
                lemma_settle_work(
                    next,
                    leg.program_onto(ops, state.programmed, state.address),
                    Control::Bytes,
                );
            }
        },
        Control::Bytes => {
            if state.done < leg.len {
                if state.done == state.programmed {
                    assert(base(Master { phase: Phase::Polling(Awaited::Reload), ..state })
                        == base(state));
                } else {
                    assert(base(Master { phase: Phase::Polling(leg.byte_ready()), ..state })
                        == base(state));
                }
            } else {
                lemma_settle_work(state, ops, Control::Close);
            }
        },
        Control::Close => {
            if leg.ending == Ending::Open {
                lemma_settle_work(state, ops, Control::Finish);
            } else {
                assert(base(Master { phase: Phase::Polling(Awaited::Complete), ..state })
                    == base(state));
            }
        },
        Control::Released => {
            if leg.ending == Ending::Release {
                lemma_settle_work(state, ops.push(stop_op()), Control::Finish);
            } else {
                lemma_settle_work(state, ops, Control::Finish);
            }
        },
        Control::Finish => {
            if state.leg + 1 < state.legs.len() {
                let next = Master { leg: state.leg + 1, chunk: 0, programmed: 0, done: 0, ..state };
                let queue = if leg.dma {
                    ops.push(Op::ModifyCr1(leg.teardown()))
                } else {
                    ops
                };
                lemma_rest_unfold(state.legs, state.leg + 1);
                assert(bound(next, Control::Enter) == rest_work(state.legs, state.leg + 1));
                lemma_settle_work(next, queue, Control::Enter);
            }
        },
        Control::Fail(_) => {},
    }
}

/// Once a chunk is programmed the counters are still within the leg, and
/// one chunk less is to come.
proof fn lemma_program_counts(state: Master)
    requires
        state.ready(Control::Program),
    ensures
        (Master {
            chunk: state.chunk + 1,
            programmed: state.programmed + chunk_size(
                state.current().len as nat,
                state.programmed,
            ),
            ..state
        }).within(),
        state.chunk < chunk_count(state.current().len as nat),
{
}

/// One answer of a cooperative bus either ends the operation well or leaves
/// less work than before.
#[verifier::rlimit(50)]
pub proof fn lemma_cooperative_step(before: Outcome<Master, ()>, input: Input)
    requires
        holds(before),
        calm(before.state),
        !(before.request is Finish),
        cooperates(before.request, input),
    ensures
        ({
            let next = before.state.advance(input);
            let after = Outcome {
                state: next.state,
                ops: before.ops + next.ops,
                request: next.request,
            };
            &&& holds(after)
            &&& work(before.state) >= 1
            &&& after.request == Request::<()>::Finish(Ok(())) || (!(after.request is Finish)
                && calm(after.state) && work(after.state) < work(before.state))
        }),
{
    let state = before.state;
    let leg = state.current();
    let none = Seq::<Op>::empty();
    lemma_advance_holds(before, input);
    lemma_within_counts(state);
    assert(forall|phase: Phase| base(Master { phase, ..state }) == base(state));
    match state.phase {
        Phase::Polling(Awaited::StartCleared) => {
            lemma_settle_work(state, none, Control::Program);
        },
        Phase::Polling(Awaited::Reload) => {
            lemma_settle_work(state, none, Control::Program);
        },
        Phase::Polling(Awaited::TransmitEmpty) => {
            let moved = Master { done: state.done + 1, ..state };
            assert(base(moved) == base(state) - 1);
            lemma_settle_work(
                moved,
                seq![Op::WriteTxdr(state.bytes[leg.offset + state.done])],
                Control::Bytes,
            );
        },
        Phase::Polling(Awaited::ReceiveFull) => {},
        Phase::Flags => {
            if state.chunk == 0 {
                lemma_settle_work(state, none, Control::Open);
            }
        },
        Phase::Suspended => {},
        Phase::Dma => {
            lemma_settle_work(state, none, Control::Close);
        },
        Phase::Polling(Awaited::Complete) => {
            lemma_settle_work(state, none, Control::Released);
        },
        Phase::Data => {
            let word = input->Word_0;
            let moved = Master {
                received: state.received.push(received_byte(word)),
                done: state.done + 1,
                ..state
            };
            assert(base(moved) == base(state) - 2);
            lemma_settle_work(moved, none, Control::Bytes);
        },
        _ => {},
    }
}

/// After `n` answers of a cooperative bus an operation has ended well, or
/// `n` steps less are left of its work.
pub proof fn lemma_cooperative_run(first: Outcome<Master, ()>, inputs: Seq<Input>)
    requires
        holds(first),
        first.request == Request::<()>::Finish(Ok(())) || (!(first.request is Finish) && calm(
            first.state,
        )),
        cooperative(first, inputs),
    ensures
        ({
            let end = follow(first, inputs);
            &&& holds(end)
            &&& end.request == Request::<()>::Finish(Ok(())) || (!(end.request is Finish) && calm(
                end.state,
            ) && work(end.state) >= 1 && work(end.state) + inputs.len() <= work(first.state))
        }),
    decreases inputs.len(),
{
    if inputs.len() == 0 {
        if !(first.request is Finish) {
            lemma_calm_work(first);
        }
    } else {
        let shorter = inputs.drop_last();
        let before = follow(first, shorter);
        assert forall|i: int| 0 <= i < shorter.len() implies cooperates(
            follow(first, #[trigger] shorter.take(i)).request,
            shorter[i],
        ) by {
            assert(shorter.take(i) =~= inputs.take(i));
        }
        lemma_cooperative_run(first, shorter);
        if !(before.request is Finish) {
            assert(inputs.take(inputs.len() - 1) =~= shorter);
            lemma_cooperative_step(before, inputs.last());
            let end = follow(first, inputs);
            if !(end.request is Finish) {
                lemma_calm_work(end);
            }
        }
    }
}

/// An operation that waits for an answer has a step left to take.
proof fn lemma_calm_work(out: Outcome<Master, ()>)
    requires
        holds(out),
        !(out.request is Finish),
        calm(out.state),
    ensures
        work(out.state) >= 1,
{
    lemma_within_counts(out.state);
}

/// On a bus on which nothing goes wrong every operation ends well, and no
/// later than after as many answers as its legs take steps.
pub proof fn lemma_cooperative_bus(
    legs: Seq<Leg>,
    bytes: Seq<u8>,
    address: u8,
    fail_stop: bool,
    inputs: Seq<Input>,
)
    requires
        legs.len() > 0,
        forall|i: int| 0 <= i < legs.len() ==> (#[trigger] legs[i]).fits(bytes.len()),
        cooperative(Master::begin(legs, bytes, address, fail_stop), inputs),
        inputs.len() >= rest_work(legs, 0),
    ensures
        follow(Master::begin(legs, bytes, address, fail_stop), inputs).request == Request::<
            (),
        >::Finish(Ok(())),
{
    let armed = Master::armed(legs, bytes, address, fail_stop);
    let first = Master::begin(legs, bytes, address, fail_stop);
    lemma_begin_holds(legs, bytes, address, fail_stop);
    lemma_settle_work(armed, Seq::empty(), Control::Enter);
    lemma_settle_fails(armed, Seq::empty(), Control::Enter);
    lemma_rest_unfold(legs, 0);
    assert(bound(armed, Control::Enter) == rest_work(legs, 0));
    assert(first == armed.settle(Seq::empty(), Control::Enter));
    lemma_cooperative_run(first, inputs);
    let end = follow(first, inputs);
    if !(first.request is Finish) {
        assert(work(first.state) <= rest_work(legs, 0));
    } else {
        lemma_finished_stays(first, inputs);
    }
}

/// Nothing follows the step that ends an operation.
proof fn lemma_finished_stays(first: Outcome<Master, ()>, inputs: Seq<Input>)
    requires
        first.request is Finish,
    ensures
        follow(first, inputs) == first,
    decreases inputs.len(),
{
    if inputs.len() > 0 {
        lemma_finished_stays(first, inputs.drop_last());
    }
}

/// On a cooperative bus a blocking write of `N` bytes ends well after at
/// most `N` steps for the bytes, one for each chunk and one for
/// transfer-complete. It has then written its bytes to the transmit
/// register, each once and in order, in the chunks of its length, after one
/// address phase and before one STOP.
pub proof fn lemma_cooperative_write(data: Seq<u8>, address: u8, inputs: Seq<Input>)
    requires
        data.len() <= usize::MAX,
        cooperative(
            Master::begin(
                seq![write_leg(data.len() as usize, 0, 0, false, true, true, Ending::Release)],
                data,
                address,
                true,
            ),
            inputs,
        ),
        inputs.len() >= data.len() + chunk_count(data.len()) + 1,
    ensures
        ({
            let end = follow(
                Master::begin(
                    seq![write_leg(data.len() as usize, 0, 0, false, true, true, Ending::Release)],
                    data,
                    address,
                    true,
                ),
                inputs,
            );
            &&& end.request == Request::<()>::Finish(Ok(()))
            &&& tally(end.ops).sent == data
            &&& tally(end.ops).programmed == chunks(data.len(), true)
            &&& tally(end.ops).starts == 1
            &&& tally(end.ops).stops == 1
        }),
{
    let legs = seq![write_leg(data.len() as usize, 0, 0, false, true, true, Ending::Release)];
    lemma_rest_unfold(legs, 0);
    lemma_cooperative_bus(legs, data, address, true, inputs);
    lemma_blocking_write(data, address, inputs);
}

/// On a cooperative bus a blocking read of `N` bytes ends well after at most
/// two steps for each byte and one for each chunk. It was then programmed in
/// the chunks of its length after one address phase, and holds the `N` bytes
/// that the receive register delivered, in order.
pub proof fn lemma_cooperative_read(len: usize, address: u8, inputs: Seq<Input>)
    requires
        cooperative(
            Master::begin(seq![read_leg(len, false, false)], Seq::empty(), address, false),
            inputs,
        ),
        inputs.len() >= 2 * len + chunk_count(len as nat),
    ensures
        ({
            let first = Master::begin(
                seq![read_leg(len, false, false)],
                Seq::empty(),
                address,
                false,
            );
            let end = follow(first, inputs);
            &&& end.request == Request::<()>::Finish(Ok(()))
            &&& tally(end.ops).programmed == chunks(len as nat, true)
            &&& tally(end.ops).starts == 1
            &&& end.state.received.len() == len
            &&& end.state.received == heard(first, inputs)
        }),
{
    let legs = seq![read_leg(len, false, false)];
    lemma_rest_unfold(legs, 0);
    lemma_cooperative_bus(legs, Seq::empty(), address, false, inputs);
    lemma_read(len, false, address, inputs);
    lemma_blocking_read(len, address, inputs);
}

/// On a cooperative bus a blocking write of several buffers ends well once
/// the steps of its legs are taken, whichever buffers are empty. It has
/// then written the buffers joined, after one address phase and before one
/// STOP.
pub proof fn lemma_cooperative_vectored(buffers: Seq<Seq<u8>>, address: u8, inputs: Seq<Input>)
    requires
        0 < buffers.len() <= usize::MAX,
        joined(buffers, buffers.len()).len() <= usize::MAX,
        cooperative(
            Master::begin(
                vectored_legs(buffers, false),
                joined(buffers, buffers.len()),
                address,
                true,
            ),
            inputs,
        ),
        inputs.len() >= rest_work(vectored_legs(buffers, false), 0),
    ensures
        ({
            let end = follow(
                Master::begin(
                    vectored_legs(buffers, false),
                    joined(buffers, buffers.len()),
                    address,
                    true,
                ),
                inputs,
            );
            &&& end.request == Request::<()>::Finish(Ok(()))
            &&& tally(end.ops).sent == joined(buffers, buffers.len())
            &&& tally(end.ops).starts == 1
            &&& tally(end.ops).stops == 1
        }),
{
    let legs = vectored_legs(buffers, false);
    lemma_vectored_fits(buffers, false);
    lemma_cooperative_bus(legs, joined(buffers, buffers.len()), address, true, inputs);
    lemma_vectored_write(buffers, address, inputs);
}

/// On a cooperative bus a write by DMA ends well after at most three steps
/// for each chunk and three more. It was then programmed in the chunks of
/// its length, after one address phase and before one STOP.
pub proof fn lemma_cooperative_dma_write(len: usize, address: u8, inputs: Seq<Input>)
    requires
        len > 0,
        cooperative(
            Master::begin(
                seq![write_leg(len, 0, 0, true, true, true, Ending::Release)],
                Seq::empty(),
                address,
                true,
            ),
            inputs,
        ),
        inputs.len() >= 3 * chunk_count(len as nat) + 3,
    ensures
        ({
            let end = follow(
                Master::begin(
                    seq![write_leg(len, 0, 0, true, true, true, Ending::Release)],
                    Seq::empty(),
                    address,
                    true,
                ),
                inputs,
            );
            &&& end.request == Request::<()>::Finish(Ok(()))
            &&& tally(end.ops).programmed == chunks(len as nat, true)
            &&& tally(end.ops).starts == 1
            &&& tally(end.ops).stops == 1
        }),
{
    let legs = seq![write_leg(len, 0, 0, true, true, true, Ending::Release)];
    lemma_rest_unfold(legs, 0);
    lemma_cooperative_bus(legs, Seq::empty(), address, true, inputs);
    lemma_dma_write(len, address, inputs);
}

/// On a cooperative bus a read by DMA ends well after at most three steps
/// for each chunk and three more. It was then programmed in the chunks of
/// its length, after one address phase and before one STOP.
pub proof fn lemma_cooperative_dma_read(len: usize, address: u8, inputs: Seq<Input>)
    requires
        len > 0,
        cooperative(
            Master::begin(seq![read_leg(len, true, false)], Seq::empty(), address, false),
            inputs,
        ),
        inputs.len() >= 3 * chunk_count(len as nat) + 3,
    ensures
        ({
            let end = follow(
                Master::begin(seq![read_leg(len, true, false)], Seq::empty(), address, false),
                inputs,
            );
            &&& end.request == Request::<()>::Finish(Ok(()))
            &&& tally(end.ops).programmed == chunks(len as nat, true)
            &&& tally(end.ops).starts == 1
            &&& tally(end.ops).stops == 1
        }),
{
    let legs = seq![read_leg(len, true, false)];
    lemma_rest_unfold(legs, 0);
    lemma_cooperative_bus(legs, Seq::empty(), address, false, inputs);
    lemma_read(len, true, address, inputs);
}

} // verus!
