//! The master engine: START, the chunks of each buffer, STOP.
//!
//! A master operation is a list of legs, one per buffer. A leg either opens
//! with an address phase or carries on where the leg before it left the bus,
//! moves its bytes chunk by chunk, and ends by handing the bus on, holding it,
//! or releasing it. A blocking leg moves every byte through the data
//! registers; a DMA leg lets the DMA engine move them and sleeps in between.
use vstd::prelude::*;
use crate::chunk::{chunk_size, chunk_spec, CHUNK_MAX};
use crate::engine::{Input, Op, Outcome, Request};
use crate::regs::{received_byte, start_pending, Cr1Update, Cr2Update, Flag, Status};
use crate::types::{AddressMode, Direction, Error, Stop};

verus! {

/// How a leg leaves the bus.
#[derive(Clone, Copy, Debug, PartialEq, Eq)]
pub enum Ending {
    /// Nothing is waited for: the next leg, or the peripheral itself, goes on.
    Open,
    /// Transfer-complete is awaited and the bus stays held.
    Hold,
    /// Transfer-complete is awaited and STOP is commanded.
    Release,
}

/// One buffer's part of a master operation.
#[derive(Clone, Copy, Debug, PartialEq, Eq)]
pub struct Leg {
    /// The master transmits.
    pub write: bool,
    /// The DMA engine moves the bytes.
    pub dma: bool,
    /// The buffer's length.
    pub len: usize,
    /// Where the buffer begins in the engine's payload.
    pub offset: usize,
    /// Which of the caller's buffers the leg moves.
    pub buffer: usize,
    /// The leg opens with START and the address.
    pub first: bool,
    /// The leg's last chunk ends the transfer.
    pub last: bool,
    /// START is commanded while the bus is held, without waiting for an
    /// earlier START to clear.
    pub restart: bool,
    /// The stop policy programmed with START.
    pub stop: Stop,
    /// How the leg leaves the bus.
    pub ending: Ending,
}

/// A condition the engine polls for.
#[derive(Clone, Copy, Debug, PartialEq, Eq)]
pub enum Awaited {
    /// The START bit of an earlier address phase has cleared.
    StartCleared,
    /// The byte counter ran out with reload asserted.
    Reload,
    /// The transmit register takes a byte.
    TransmitEmpty,
    /// The receive register holds a byte.
    ReceiveFull,
    /// The transfer is complete.
    Complete,
}

/// Where the engine stands: which answer it waits for.
#[derive(Clone, Copy, Debug, PartialEq, Eq)]
pub enum Phase {
    /// No operation is under way.
    Idle,
    /// A DMA leg was woken and reads the status register.
    Flags,
    /// A DMA leg sleeps until the interrupt handler wakes it.
    Suspended,
    /// The register of the condition is being read.
    Polling(Awaited),
    /// The condition did not hold; the deadline is being checked.
    Deadline(Awaited),
    /// After a NACK: the status register is read for a pending transmit
    /// request.
    FlushPending,
    /// After a NACK: the status register is read for a stale transmit byte.
    FlushEmpty,
    /// The receive register is being read.
    Data,
    /// The DMA engine is awaited.
    Dma,
}

/// What remains to be decided within one step.
#[derive(Clone, Copy, Debug, PartialEq, Eq)]
pub enum Control {
    /// A leg begins.
    Enter,
    /// The leg's first chunk is to be programmed, after the wait it needs.
    Open,
    /// The next chunk is programmed.
    Program,
    /// The next byte of a blocking leg is due.
    Bytes,
    /// All bytes of the leg are programmed and moved.
    Close,
    /// Transfer-complete was seen.
    Released,
    /// The leg is over.
    Finish,
    /// The operation fails.
    Fail(Error),
}

impl Control {
    /// Orders the decisions of one step within a leg.
    pub open spec fn rank(self) -> nat {
        match self {
            Control::Enter => 7,
            Control::Open => 6,
            Control::Program => 5,
            Control::Bytes => 4,
            Control::Close => 3,
            Control::Released => 2,
            Control::Finish => 1,
            Control::Fail(_) => 0,
        }
    }
}

/// The command that releases the bus.
pub open spec fn stop_op() -> Op {
    Op::WriteCr2(Cr2Update { stop: Some(true), ..Cr2Update::keep() })
}

/// The command that arms the transfer-complete interrupt again.
pub open spec fn rearm_op() -> Op {
    Op::ModifyCr1(Cr1Update { tcie: Some(true), ..Cr1Update::keep() })
}

impl Leg {
    /// The direction on the bus.
    pub open spec fn direction(self) -> Direction {
        if self.write {
            Direction::Write
        } else {
            Direction::Read
        }
    }

    /// A DMA leg has bytes to move, and a blocking write leg finds its bytes
    /// in a payload of `payload` bytes.
    pub open spec fn fits(self, payload: nat) -> bool {
        &&& self.dma ==> self.len > 0
        &&& !self.dma && self.write ==> self.offset + self.len <= payload
    }

    /// Enabling DMA requests and the completion interrupt, before a DMA leg.
    pub open spec fn setup(self) -> Cr1Update {
        if self.write {
            Cr1Update {
                txdmaen: Some(true),
                tcie: if self.first {
                    Some(true)
                } else {
                    None
                },
                ..Cr1Update::keep()
            }
        } else {
            Cr1Update { rxdmaen: Some(true), tcie: Some(true), ..Cr1Update::keep() }
        }
    }

    /// Leaving a DMA leg that completed: the completion interrupt goes off,
    /// and so do DMA requests unless another buffer follows.
    pub open spec fn teardown(self) -> Cr1Update {
        if self.write {
            Cr1Update {
                txdmaen: if self.last {
                    Some(false)
                } else {
                    None
                },
                tcie: Some(false),
                ..Cr1Update::keep()
            }
        } else {
            Cr1Update { rxdmaen: Some(false), tcie: Some(false), ..Cr1Update::keep() }
        }
    }

    /// Leaving a DMA leg that failed or was abandoned: DMA requests and the
    /// completion interrupt go off.
    pub open spec fn abort(self) -> Cr1Update {
        if self.write {
            Cr1Update { txdmaen: Some(false), tcie: Some(false), ..Cr1Update::keep() }
        } else {
            Cr1Update { rxdmaen: Some(false), tcie: Some(false), ..Cr1Update::keep() }
        }
    }

    /// Starting the DMA engine on the leg's buffer.
    pub open spec fn start_dma(self) -> Op {
        if self.write {
            Op::StartDmaWrite { buffer: self.buffer, len: self.len }
        } else {
            Op::StartDmaRead { len: self.len }
        }
    }

    /// Programming the chunk that begins `at` bytes into the leg: count and
    /// reload, and for the chunk that opens the transfer also the address,
    /// the direction, the stop policy and START.
    pub open spec fn program(self, at: nat, address: u8) -> Cr2Update {
        let chunk = chunk_spec(self.len as nat, at, self.last);
        if self.first && at == 0 {
            Cr2Update {
                sadd: Some((address << 1) as u16),
                add10: Some(AddressMode::Bit7),
                dir: Some(self.direction()),
                nbytes: Some(chunk.size),
                start: Some(true),
                autoend: Some(self.stop),
                reload: Some(chunk.reload),
                ..Cr2Update::keep()
            }
        } else {
            Cr2Update { nbytes: Some(chunk.size), reload: Some(chunk.reload), ..Cr2Update::keep() }
        }
    }

    /// `ops` and then the commands that program the chunk at `at`; a DMA leg
    /// arms the completion interrupt again, except with the chunk that opens
    /// the transfer.
    pub open spec fn program_onto(self, ops: Seq<Op>, at: nat, address: u8) -> Seq<Op> {
        if self.dma && !(self.first && at == 0) {
            ops.push(Op::ModifyCr2(self.program(at, address))).push(rearm_op())
        } else {
            ops.push(Op::ModifyCr2(self.program(at, address)))
        }
    }

    /// The condition a blocking leg polls before each byte.
    pub open spec fn byte_ready(self) -> Awaited {
        if self.write {
            Awaited::TransmitEmpty
        } else {
            Awaited::ReceiveFull
        }
    }
}

/// How many bytes of a buffer of `len` are programmed once `chunk` chunks
/// are.
pub open spec fn programmed_after(len: nat, chunk: nat) -> nat {
    if CHUNK_MAX * chunk <= len {
        (CHUNK_MAX * chunk) as nat
    } else {
        len
    }
}

/// The request that stands while the engine is in `phase`.
pub open spec fn pending(phase: Phase) -> Request<()> {
    match phase {
        Phase::Idle => Request::Idle,
        Phase::Flags => Request::ReadIsr,
        Phase::Suspended => Request::Suspend,
        Phase::Polling(Awaited::StartCleared) => Request::ReadCr2,
        Phase::Polling(_) => Request::ReadIsr,
        Phase::Deadline(_) => Request::CheckDeadline,
        Phase::FlushPending => Request::ReadIsr,
        Phase::FlushEmpty => Request::ReadIsr,
        Phase::Data => Request::ReadRxdr,
        Phase::Dma => Request::AwaitDma,
    }
}

/// The master engine as specifications see it.
pub struct Master {
    /// The legs of the operation.
    pub legs: Seq<Leg>,
    /// The bytes of the blocking write legs.
    pub bytes: Seq<u8>,
    /// The seven-bit address of the peer.
    pub address: u8,
    /// A failure releases the bus.
    pub fail_stop: bool,
    /// The leg under way.
    pub leg: nat,
    /// How many chunks of the leg have been programmed.
    pub chunk: nat,
    /// How many bytes of the leg have been programmed.
    pub programmed: nat,
    /// How many bytes of a blocking leg have been moved.
    pub done: nat,
    /// The bytes received by blocking read legs.
    pub received: Seq<u8>,
    /// Which answer is awaited.
    pub phase: Phase,
}

impl Master {
    /// The leg under way.
    pub open spec fn current(self) -> Leg {
        self.legs[self.leg as int]
    }

    /// Every leg finds its bytes.
    pub open spec fn legs_fit(self) -> bool {
        forall|i: int| 0 <= i < self.legs.len() ==> (#[trigger] self.legs[i]).fits(self.bytes.len())
    }

    /// A leg is under way and the counters are within it.
    pub open spec fn within(self) -> bool {
        &&& self.legs_fit()
        &&& self.leg < self.legs.len()
        &&& self.done <= self.programmed <= self.current().len
        &&& self.current().dma ==> self.done == 0
        &&& self.programmed == programmed_after(self.current().len as nat, self.chunk)
        &&& self.chunk >= 2 ==> CHUNK_MAX * (self.chunk - 1) < self.current().len
    }

    /// What a decision needs besides: a leg opens with nothing programmed,
    /// and only a blocking leg moves bytes itself.
    pub open spec fn ready(self, control: Control) -> bool {
        &&& self.within()
        &&& control == Control::Enter || control == Control::Open ==> self.chunk == 0
        &&& control == Control::Program ==> self.chunk == 0 || self.programmed
            < self.current().len
        &&& control == Control::Bytes ==> !self.current().dma
    }

    /// The engine's invariant.
    pub open spec fn wf(self) -> bool {
        &&& self.legs_fit()
        &&& self.phase != Phase::Idle ==> self.within()
        &&& (self.phase == Phase::Polling(Awaited::TransmitEmpty) || self.phase == Phase::Deadline(
            Awaited::TransmitEmpty,
        )) ==> self.current().write && !self.current().dma && self.done < self.programmed
        &&& (self.phase == Phase::Polling(Awaited::ReceiveFull) || self.phase == Phase::Deadline(
            Awaited::ReceiveFull,
        ) || self.phase == Phase::Data) ==> !self.current().dma && self.done < self.programmed
        &&& (self.phase == Phase::Polling(Awaited::Reload) || self.phase == Phase::Deadline(
            Awaited::Reload,
        )) ==> (self.current().dma || self.done == self.programmed) && (self.chunk == 0
            || self.programmed < self.current().len)
        &&& (self.phase == Phase::Polling(Awaited::StartCleared) || self.phase == Phase::Deadline(
            Awaited::StartCleared,
        )) ==> self.chunk == 0
        &&& (self.phase == Phase::Flags || self.phase == Phase::Suspended || self.phase
            == Phase::Dma) ==> self.current().dma
    }

    /// An engine about to begin an operation.
    pub open spec fn armed(legs: Seq<Leg>, bytes: Seq<u8>, address: u8, fail_stop: bool) -> Master {
        Master {
            legs,
            bytes,
            address,
            fail_stop,
            leg: 0,
            chunk: 0,
            programmed: 0,
            done: 0,
            received: Seq::empty(),
            phase: Phase::Idle,
        }
    }

    /// The engine parked in `phase`, with the request of that phase.
    pub open spec fn park(self, phase: Phase, ops: Seq<Op>) -> Outcome<Master, ()> {
        Outcome { state: Master { phase, ..self }, ops, request: pending(phase) }
    }

    /// `ops` and then the commands that end the operation on a failure: STOP
    /// where the operation releases the bus, and the DMA enables off.
    pub open spec fn fail_onto(self, ops: Seq<Op>) -> Seq<Op> {
        let stopped = if self.fail_stop {
            ops.push(stop_op())
        } else {
            ops
        };
        if self.current().dma {
            stopped.push(Op::ModifyCr1(self.current().abort()))
        } else {
            stopped
        }
    }

    /// Carries one step to its end: from a decision that is due to the next
    /// request, with the commands on the way added to `ops`.
    pub open spec fn settle(self, ops: Seq<Op>, control: Control) -> Outcome<Master, ()>
        decreases self.legs.len() - self.leg, control.rank(),
    {
        let leg = self.current();
        match control {
            Control::Enter => if leg.dma {
                self.park(
                    Phase::Flags,
                    ops.push(Op::ModifyCr1(leg.setup())).push(leg.start_dma()),
                )
            } else {
                self.settle(ops, Control::Open)
            },
            Control::Open => if !leg.first {
                self.park(Phase::Polling(Awaited::Reload), ops)
            } else if leg.write || !leg.restart {
                self.park(Phase::Polling(Awaited::StartCleared), ops)
            } else {
                self.settle(ops, Control::Program)
            },
            Control::Program => {
                let next = Master {
                    chunk: self.chunk + 1,
                    programmed: self.programmed + chunk_size(leg.len as nat, self.programmed),
                    ..self
                };
                let ops = leg.program_onto(ops, self.programmed, self.address);
                if leg.dma {
                    next.park(Phase::Suspended, ops)
                } else {
                    next.settle(ops, Control::Bytes)
                }
            },
            Control::Bytes => if self.done < leg.len {
                if self.done == self.programmed {
                    self.park(Phase::Polling(Awaited::Reload), ops)
                } else {
                    self.park(Phase::Polling(leg.byte_ready()), ops)
                }
            } else {
                self.settle(ops, Control::Close)
            },
            Control::Close => if leg.ending == Ending::Open {
                self.settle(ops, Control::Finish)
            } else {
                self.park(Phase::Polling(Awaited::Complete), ops)
            },
            Control::Released => if leg.ending == Ending::Release {
                self.settle(ops.push(stop_op()), Control::Finish)
            } else {
                self.settle(ops, Control::Finish)
            },
            Control::Finish => {
                let ops = if leg.dma {
                    ops.push(Op::ModifyCr1(leg.teardown()))
                } else {
                    ops
                };
                if self.leg + 1 < self.legs.len() {
                    (Master { leg: self.leg + 1, chunk: 0, programmed: 0, done: 0, ..self }).settle(
                        ops,
                        Control::Enter,
                    )
                } else {
                    Outcome {
                        state: Master { phase: Phase::Idle, ..self },
                        ops,
                        request: Request::Finish(Ok(())),
                    }
                }
            },
            Control::Fail(error) => Outcome {
                state: Master { phase: Phase::Idle, ..self },
                ops: self.fail_onto(ops),
                request: Request::Finish(Err(error)),
            },
        }
    }

    /// A condition did not hold: an error flag is cleared and the operation
    /// fails, a NACK is cleared and the transmit path flushed, or else the
    /// deadline is checked.
    pub open spec fn fault(self, status: Status, awaited: Awaited) -> Outcome<Master, ()> {
        if status.berr {
            self.settle(seq![Op::WriteIcr(Flag::Berr)], Control::Fail(Error::Bus))
        } else if status.arlo {
            self.settle(seq![Op::WriteIcr(Flag::Arlo)], Control::Fail(Error::Arbitration))
        } else if status.nackf {
            self.park(Phase::FlushPending, seq![Op::WriteIcr(Flag::Nack)])
        } else {
            self.park(Phase::Deadline(awaited), Seq::empty())
        }
    }

    /// What the word read for a polled condition leads to.
    pub open spec fn polled(self, awaited: Awaited, word: u32) -> Outcome<Master, ()> {
        let status = Status::of(word);
        match awaited {
            Awaited::StartCleared => if start_pending(word) {
                self.park(Phase::Deadline(awaited), Seq::empty())
            } else {
                self.settle(Seq::empty(), Control::Program)
            },
            Awaited::Reload => if status.tcr {
                self.settle(Seq::empty(), Control::Program)
            } else {
                self.park(Phase::Deadline(awaited), Seq::empty())
            },
            Awaited::TransmitEmpty => if status.txe {
                (Master { done: self.done + 1, ..self }).settle(
                    seq![Op::WriteTxdr(self.bytes[self.current().offset + self.done])],
                    Control::Bytes,
                )
            } else {
                self.fault(status, awaited)
            },
            Awaited::ReceiveFull => if status.rxne {
                self.park(Phase::Data, Seq::empty())
            } else {
                self.fault(status, awaited)
            },
            Awaited::Complete => if status.tc {
                self.settle(Seq::empty(), Control::Released)
            } else {
                self.fault(status, awaited)
            },
        }
    }

    /// What a woken DMA leg does with the status word: its first time it
    /// opens the leg; later it sleeps on unless a completion flag is set, and
    /// then programs the next chunk or, with none left, awaits the DMA engine.
    pub open spec fn woken(self, word: u32) -> Outcome<Master, ()> {
        let status = Status::of(word);
        if self.chunk == 0 {
            self.settle(Seq::empty(), Control::Open)
        } else if !(status.tcr || status.tc) {
            self.park(Phase::Suspended, Seq::empty())
        } else if self.programmed >= self.current().len {
            self.park(Phase::Dma, Seq::empty())
        } else {
            self.park(Phase::Polling(Awaited::Reload), Seq::empty())
        }
    }

    /// One step of the engine: the answer `input` to the request that stands.
    /// An answer of another kind changes nothing, and the request stands.
    pub open spec fn advance(self, input: Input) -> Outcome<Master, ()> {
        match (self.phase, input) {
            (Phase::Polling(awaited), Input::Word(word)) => self.polled(awaited, word),
            (Phase::Deadline(awaited), Input::Expired(false)) => self.park(
                Phase::Polling(awaited),
                Seq::empty(),
            ),
            (Phase::Deadline(_), Input::Expired(true)) => self.settle(
                Seq::empty(),
                Control::Fail(Error::Timeout),
            ),
            (Phase::Data, Input::Word(word)) => (Master {
                received: self.received.push(received_byte(word)),
                done: self.done + 1,
                ..self
            }).settle(Seq::empty(), Control::Bytes),
            (Phase::FlushPending, Input::Word(word)) => self.park(
                Phase::FlushEmpty,
                if Status::of(word).txis {
                    seq![Op::WriteTxdr(0)]
                } else {
                    Seq::empty()
                },
            ),
            (Phase::FlushEmpty, Input::Word(word)) => self.settle(
                if Status::of(word).txe {
                    Seq::empty()
                } else {
                    seq![Op::FlushTransmit]
                },
                Control::Fail(Error::Nack),
            ),
            (Phase::Flags, Input::Word(word)) => self.woken(word),
            (Phase::Suspended, Input::Woken) => self.park(Phase::Flags, Seq::empty()),
            (Phase::Suspended, Input::Expired(true)) => self.settle(
                Seq::empty(),
                Control::Fail(Error::Timeout),
            ),
            (Phase::Dma, Input::DmaDone) => self.settle(Seq::empty(), Control::Close),
            (Phase::Dma, Input::Expired(true)) => self.settle(
                Seq::empty(),
                Control::Fail(Error::Timeout),
            ),
            _ => self.park(self.phase, Seq::empty()),
        }
    }

    /// The first step of an operation.
    pub open spec fn begin(legs: Seq<Leg>, bytes: Seq<u8>, address: u8, fail_stop: bool) -> Outcome<
        Master,
        (),
    > {
        if legs.len() == 0 {
            Outcome {
                state: Master::armed(legs, bytes, address, fail_stop),
                ops: Seq::empty(),
                request: Request::Finish(Err(Error::ZeroLengthTransfer)),
            }
        } else {
            Master::armed(legs, bytes, address, fail_stop).settle(Seq::empty(), Control::Enter)
        }
    }

    /// Abandoning the operation: the commands that switch the DMA enables
    /// off where a DMA leg is under way, and the engine idle.
    pub open spec fn cancel(self) -> (Master, Seq<Op>) {
        (
            Master { phase: Phase::Idle, ..self },
            if self.phase != Phase::Idle && self.current().dma {
                seq![Op::ModifyCr1(self.current().abort())]
            } else {
                Seq::empty()
            },
        )
    }
}

} // verus!
