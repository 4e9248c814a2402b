//! What a sequence of commands amounts to on the bus, and what the legs of a
//! master operation are to amount to.
use vstd::prelude::*;
use crate::chunk::{chunks, Chunk};
use crate::engine::{Input, Op, Outcome, Request};
use crate::master::{Ending, Leg, Master};
use crate::regs::received_byte;

verus! {

/// What commands amount to: the bytes written to the transmit register, the
/// chunks programmed, how many address phases were started and how many STOP
/// conditions commanded.
pub struct Tally {
    pub sent: Seq<u8>,
    pub programmed: Seq<Chunk>,
    pub starts: nat,
    pub stops: nat,
}

impl Tally {
    /// Nothing.
    pub open spec fn zero() -> Tally {
        Tally { sent: Seq::empty(), programmed: Seq::empty(), starts: 0, stops: 0 }
    }

    /// One tally after another.
    pub open spec fn plus(self, other: Tally) -> Tally {
        Tally {
            sent: self.sent + other.sent,
            programmed: self.programmed + other.programmed,
            starts: self.starts + other.starts,
            stops: self.stops + other.stops,
        }
    }

    /// What one command amounts to.
    pub open spec fn of(op: Op) -> Tally {
        match op {
            Op::WriteTxdr(byte) => Tally { sent: seq![byte], ..Tally::zero() },
            Op::ModifyCr2(update) => Tally {
                programmed: if update.nbytes is Some && update.reload is Some {
                    seq![Chunk { size: update.nbytes->0, reload: update.reload->0 }]
                } else {
                    Seq::empty()
                },
                starts: if update.start == Some(true) {
                    1
                } else {
                    0
                },
                ..Tally::zero()
            },
            Op::WriteCr2(update) => Tally {
                stops: if update.stop == Some(true) {
                    1
                } else {
                    0
                },
                ..Tally::zero()
            },
            _ => Tally::zero(),
        }
    }

    /// Whether two tallies agree in every part.
    pub open spec fn same(self, other: Tally) -> bool {
        &&& self.sent =~= other.sent
        &&& self.programmed =~= other.programmed
        &&& self.starts == other.starts
        &&& self.stops == other.stops
    }
}

/// How many of the chunks programmed carried a transfer on rather than
/// opened one.
pub open spec fn continuations(total: Tally) -> int {
    total.programmed.len() - total.starts
}

/// What a sequence of commands amounts to.
pub open spec fn tally(ops: Seq<Op>) -> Tally
    decreases ops.len(),
{
    if ops.len() == 0 {
        Tally::zero()
    } else {
        tally(ops.drop_last()).plus(Tally::of(ops.last()))
    }
}

/// What a leg amounts to once it is over: its bytes, if it is a blocking
/// write, the chunks of its length, an address phase if it opens the
/// transfer, and a STOP if it releases the bus.
pub open spec fn leg_tally(leg: Leg, bytes: Seq<u8>) -> Tally {
    Tally {
        sent: if leg.write && !leg.dma {
            bytes.subrange(leg.offset as int, leg.offset + leg.len)
        } else {
            Seq::empty()
        },
        programmed: chunks(leg.len as nat, leg.last),
        starts: if leg.first {
            1
        } else {
            0
        },
        stops: if leg.ending == Ending::Release {
            1
        } else {
            0
        },
    }
}

/// What the first `n` legs amount to.
pub open spec fn legs_tally(legs: Seq<Leg>, bytes: Seq<u8>, n: nat) -> Tally
    decreases n,
{
    if n == 0 {
        Tally::zero()
    } else {
        legs_tally(legs, bytes, (n - 1) as nat).plus(leg_tally(legs[n - 1], bytes))
    }
}

/// What the leg under way amounts to so far.
pub open spec fn leg_progress(state: Master) -> Tally {
    let leg = state.current();
    Tally {
        sent: if leg.write && !leg.dma {
            state.bytes.subrange(leg.offset as int, leg.offset + state.done)
        } else {
            Seq::empty()
        },
        programmed: chunks(leg.len as nat, leg.last).take(state.chunk as int),
        starts: if leg.first && state.chunk > 0 {
            1
        } else {
            0
        },
        stops: 0,
    }
}

/// How many bytes the blocking reads among the first `n` legs take in.
pub open spec fn reads_total(legs: Seq<Leg>, n: nat) -> nat
    decreases n,
{
    if n == 0 {
        0
    } else if !legs[n - 1].write && !legs[n - 1].dma {
        reads_total(legs, (n - 1) as nat) + legs[n - 1].len as nat
    } else {
        reads_total(legs, (n - 1) as nat)
    }
}

/// How many bytes the blocking reads have taken in so far.
pub open spec fn reads_so_far(state: Master) -> nat {
    if !state.current().write && !state.current().dma {
        reads_total(state.legs, state.leg) + state.done
    } else {
        reads_total(state.legs, state.leg)
    }
}

/// The data bytes that the answers `inputs` delivered from the receive
/// register, in order.
pub open spec fn heard(first: Outcome<Master, ()>, inputs: Seq<Input>) -> Seq<u8>
    decreases inputs.len(),
{
    if inputs.len() == 0 {
        Seq::empty()
    } else {
        let before = follow(first, inputs.drop_last());
        let earlier = heard(first, inputs.drop_last());
        match (before.request, inputs.last()) {
            (Request::ReadRxdr, Input::Word(word)) => earlier.push(received_byte(word)),
            _ => earlier,
        }
    }
}

/// What the operation amounts to so far.
pub open spec fn progress(state: Master) -> Tally {
    legs_tally(state.legs, state.bytes, state.leg).plus(leg_progress(state))
}

/// An operation from its first step through the answers `inputs`; nothing
/// follows the step that ends it.
pub open spec fn follow(first: Outcome<Master, ()>, inputs: Seq<Input>) -> Outcome<Master, ()>
    decreases inputs.len(),
{
    if inputs.len() == 0 {
        first
    } else {
        let before = follow(first, inputs.drop_last());
        match before.request {
            Request::Finish(_) => before,
            _ => {
                let next = before.state.advance(inputs.last());
                Outcome { state: next.state, ops: before.ops + next.ops, request: next.request }
            },
        }
    }
}

/// Equal parts make equal tallies.
pub proof fn lemma_same(a: Tally, b: Tally)
    requires
        a.same(b),
    ensures
        a == b,
{
}

/// A command at the end adds its own tally.
pub proof fn lemma_tally_push(ops: Seq<Op>, op: Op)
    ensures
        tally(ops.push(op)) == tally(ops).plus(Tally::of(op)),
{
    assert(ops.push(op).drop_last() =~= ops);
}

/// Adding nothing changes nothing.
pub proof fn lemma_plus_zero(a: Tally)
    ensures
        a.plus(Tally::zero()) == a,
        Tally::zero().plus(a) == a,
{
    lemma_same(a.plus(Tally::zero()), a);
    lemma_same(Tally::zero().plus(a), a);
}

/// Tallies add up in any grouping.
pub proof fn lemma_plus_assoc(a: Tally, b: Tally, c: Tally)
    ensures
        a.plus(b).plus(c) == a.plus(b.plus(c)),
{
    lemma_same(a.plus(b).plus(c), a.plus(b.plus(c)));
}

} // verus!
