//! The master engine in executable form.
use vstd::prelude::*;
use crate::chunk::{chunk_at, chunk_size};
use crate::engine::{Input, Op, Outcome, Request, Step};
use crate::master::{
    pending, rearm_op, stop_op, Awaited, Control, Ending, Leg, Master, Phase,
};
use crate::regs::{
    decode_data, decode_start, Cr1Update, Cr2Update, Flag, Status, TimingWrite,
};
use crate::timing::Timings;
use crate::types::{AddressMode, Direction, Error, Hertz, Stop};

verus! {

/// The buffers of a vectored write as sequences of bytes.
pub open spec fn buffers(write: &[&[u8]]) -> Seq<Seq<u8>> {
    Seq::new(write@.len(), |i: int| write@[i]@)
}

/// The first `n` buffers, one after the other.
pub open spec fn joined(buffers: Seq<Seq<u8>>, n: nat) -> Seq<u8>
    decreases n,
{
    if n == 0 {
        Seq::empty()
    } else {
        joined(buffers, (n - 1) as nat) + buffers[n - 1]
    }
}

/// The leg of a read of `len` bytes: blocking with automatic stop, or by DMA
/// with the bus released at the end.
pub open spec fn read_leg(len: usize, dma: bool, restart: bool) -> Leg {
    Leg {
        write: false,
        dma,
        len,
        offset: 0,
        buffer: 0,
        first: true,
        last: true,
        restart,
        stop: if dma {
            Stop::Software
        } else {
            Stop::Automatic
        },
        ending: if dma {
            Ending::Release
        } else {
            Ending::Open
        },
    }
}

/// A leg of a write.
pub open spec fn write_leg(
    len: usize,
    offset: usize,
    buffer: usize,
    dma: bool,
    first: bool,
    last: bool,
    ending: Ending,
) -> Leg {
    Leg {
        write: true,
        dma,
        len,
        offset,
        buffer,
        first,
        last,
        restart: false,
        stop: Stop::Software,
        ending,
    }
}

/// The leg for buffer `i` of a vectored write while more may follow: it
/// opens the transfer if it is the first leg, and hands the bus on.
pub open spec fn open_leg(buffers: Seq<Seq<u8>>, i: int, opening: bool, dma: bool) -> Leg {
    write_leg(
        buffers[i].len() as usize,
        if dma {
            0
        } else {
            joined(buffers, i as nat).len() as usize
        },
        i as usize,
        dma,
        opening,
        false,
        Ending::Open,
    )
}

/// The legs for the first `n` buffers of a vectored write, none of them the
/// last yet: one for each buffer that holds a byte. An empty buffer moves
/// nothing and takes no step.
pub open spec fn scanned(buffers: Seq<Seq<u8>>, n: nat, dma: bool) -> Seq<Leg>
    decreases n,
{
    if n == 0 {
        Seq::empty()
    } else {
        let before = scanned(buffers, (n - 1) as nat, dma);
        if buffers[n - 1].len() > 0 {
            before.push(open_leg(buffers, n - 1, before.len() == 0, dma))
        } else {
            before
        }
    }
}

/// A leg made the last of its transfer: its last chunk ends the transfer,
/// and the bus is released after it.
pub open spec fn closing(leg: Leg) -> Leg {
    Leg { last: true, ending: Ending::Release, ..leg }
}

/// The legs of a vectored write: none for no buffers; else one for each
/// buffer that holds a byte, the first opening the transfer and the last
/// ending it; and where no buffer holds a byte, the one empty leg of an
/// empty write.
pub open spec fn vectored_legs(buffers: Seq<Seq<u8>>, dma: bool) -> Seq<Leg> {
    let legs = scanned(buffers, buffers.len(), dma);
    if buffers.len() == 0 {
        Seq::empty()
    } else if legs.len() == 0 {
        seq![write_leg(0, 0, 0, false, true, true, Ending::Release)]
    } else {
        legs.update(legs.len() - 1, closing(legs.last()))
    }
}

/// What the legs scanned from the first `n` buffers look like: each is a
/// write of a buffer that holds a byte, found in the payload after the
/// buffers before it, and only the first opens the transfer.
pub proof fn lemma_scanned_shape(buffers: Seq<Seq<u8>>, n: nat, dma: bool)
    requires
        n <= buffers.len() <= usize::MAX,
        joined(buffers, buffers.len()).len() <= usize::MAX,
    ensures
        scanned(buffers, n, dma).len() <= n,
        forall|k: int|
            0 <= k < scanned(buffers, n, dma).len() ==> {
                let leg = #[trigger] scanned(buffers, n, dma)[k];
                &&& leg.write
                &&& leg.dma == dma
                &&& leg.first == (k == 0)
                &&& !leg.last
                &&& leg.ending == Ending::Open
                &&& leg.buffer < n
                &&& leg.len == buffers[leg.buffer as int].len()
                &&& leg.len > 0
                &&& !dma ==> leg.offset == joined(buffers, leg.buffer as nat).len()
            },
    decreases n,
{
    if n > 0 {
        let i = (n - 1) as nat;
        let before = scanned(buffers, i, dma);
        let legs = scanned(buffers, n, dma);
        lemma_scanned_shape(buffers, i, dma);
        lemma_joined_grows(buffers, n, buffers.len());
        lemma_joined_grows(buffers, i, n);
        assert(joined(buffers, n).len() == joined(buffers, i).len() + buffers[i as int].len());
        assert forall|k: int| 0 <= k < legs.len() implies {
            let leg = #[trigger] legs[k];
            &&& leg.write
            &&& leg.dma == dma
            &&& leg.first == (k == 0)
            &&& !leg.last
            &&& leg.ending == Ending::Open
            &&& leg.buffer < n
            &&& leg.len == buffers[leg.buffer as int].len()
            &&& leg.len > 0
            &&& !dma ==> leg.offset == joined(buffers, leg.buffer as nat).len()
        } by {
            if k < before.len() {
                assert(legs[k] == before[k]);
            } else {
                assert(legs[k] == open_leg(buffers, i as int, before.len() == 0, dma));
            }
        }
    }
}

/// The commands that bring the peripheral up as a master: off, timing,
/// on.
pub open spec fn init_ops(timings: Timings) -> Seq<Op> {
    seq![
        Op::ModifyCr1(Cr1Update { pe: Some(false), anfoff: Some(false), ..Cr1Update::keep() }),
        timing_op(timings),
        Op::ModifyCr1(Cr1Update { pe: Some(true), ..Cr1Update::keep() }),
    ]
}

/// The command that writes all five coefficients to the timing register.
pub open spec fn timing_op(timings: Timings) -> Op {
    Op::WriteTimingr(
        TimingWrite {
            presc: timings.prescale,
            periods: Some((timings.scll, timings.sclh)),
            sdadel: timings.sdadel,
            scldel: timings.scldel,
        },
    )
}

/// Whether a step and the engine after it are what `out` says.
pub open spec fn yields(step: Step<()>, state: Master, out: Outcome<Master, ()>) -> bool {
    &&& state == out.state
    &&& step.ops@ == out.ops
    &&& step.request == out.request
}

/// The prefixes of a list of buffers grow.
pub proof fn lemma_joined_grows(buffers: Seq<Seq<u8>>, i: nat, n: nat)
    requires
        i <= n,
    ensures
        joined(buffers, i).len() <= joined(buffers, n).len(),
    decreases n - i,
{
    if i < n {
        lemma_joined_grows(buffers, i, (n - 1) as nat);
    }
}

fn read_leg_of(len: usize, dma: bool, restart: bool) -> (leg: Leg)
    ensures
        leg == read_leg(len, dma, restart),
{
    Leg {
        write: false,
        dma,
        len,
        offset: 0,
        buffer: 0,
        first: true,
        last: true,
        restart,
        stop: if dma { Stop::Software } else { Stop::Automatic },
        ending: if dma { Ending::Release } else { Ending::Open },
    }
}

fn write_leg_of(
    len: usize,
    offset: usize,
    buffer: usize,
    dma: bool,
    first: bool,
    last: bool,
    ending: Ending,
) -> (leg: Leg)
    ensures
        leg == write_leg(len, offset, buffer, dma, first, last, ending),
{
    Leg {
        write: true,
        dma,
        len,
        offset,
        buffer,
        first,
        last,
        restart: false,
        stop: Stop::Software,
        ending,
    }
}

fn append(bytes: &mut Vec<u8>, buffer: &[u8])
    ensures
        final(bytes)@ == old(bytes)@ + buffer@,
{
    let n: usize = buffer.len();
    let mut j: usize = 0;
    while j < n
        invariant
            n == buffer@.len(),
            j <= n,
            bytes@ == old(bytes)@ + buffer@.subrange(0, j as int),
        decreases n - j,
    {
        bytes.push(buffer[j]);
        j = j + 1;
        assert(bytes@ =~= old(bytes)@ + buffer@.subrange(0, j as int));
    }
    assert(buffer@.subrange(0, n as int) =~= buffer@);
}

fn stop_command() -> (op: Op)
    ensures
        op == stop_op(),
{
    Op::WriteCr2(Cr2Update { stop: Some(true), ..Cr2Update::keep() })
}

fn rearm_command() -> (op: Op)
    ensures
        op == rearm_op(),
{
    Op::ModifyCr1(Cr1Update { tcie: Some(true), ..Cr1Update::keep() })
}

fn setup_update(leg: &Leg) -> (update: Cr1Update)
    ensures
        update == leg.setup(),
{
    if leg.write {
        Cr1Update {
            txdmaen: Some(true),
            tcie: if leg.first { Some(true) } else { None },
            ..Cr1Update::keep()
        }
    } else {
        Cr1Update { rxdmaen: Some(true), tcie: Some(true), ..Cr1Update::keep() }
    }
}

fn teardown_update(leg: &Leg) -> (update: Cr1Update)
    ensures
        update == leg.teardown(),
{
    if leg.write {
        Cr1Update {
            txdmaen: if leg.last { Some(false) } else { None },
            tcie: Some(false),
            ..Cr1Update::keep()
        }
    } else {
        Cr1Update { rxdmaen: Some(false), tcie: Some(false), ..Cr1Update::keep() }
    }
}

fn abort_update(leg: &Leg) -> (update: Cr1Update)
    ensures
        update == leg.abort(),
{
    if leg.write {
        Cr1Update { txdmaen: Some(false), tcie: Some(false), ..Cr1Update::keep() }
    } else {
        Cr1Update { rxdmaen: Some(false), tcie: Some(false), ..Cr1Update::keep() }
    }
}

fn start_dma_command(leg: &Leg) -> (op: Op)
    ensures
        op == leg.start_dma(),
{
    if leg.write {
        Op::StartDmaWrite { buffer: leg.buffer, len: leg.len }
    } else {
        Op::StartDmaRead { len: leg.len }
    }
}

fn program_update(leg: &Leg, at: usize, address: u8) -> (update: Cr2Update)
    requires
        at <= leg.len,
    ensures
        update == leg.program(at as nat, address),
{
    let chunk = chunk_at(leg.len, at, leg.last);
    if leg.first && at == 0 {
        let shifted: u8 = address << 1;
        Cr2Update {
            sadd: Some(shifted as u16),
            add10: Some(AddressMode::Bit7),
            dir: Some(if leg.write { Direction::Write } else { Direction::Read }),
            nbytes: Some(chunk.size),
            start: Some(true),
            autoend: Some(leg.stop),
            reload: Some(chunk.reload),
            ..Cr2Update::keep()
        }
    } else {
        Cr2Update { nbytes: Some(chunk.size), reload: Some(chunk.reload), ..Cr2Update::keep() }
    }
}

fn pending_request(phase: Phase) -> (request: Request<()>)
    ensures
        request == pending(phase),
{
    match phase {
        Phase::Idle => Request::Idle,
        Phase::Flags => Request::ReadIsr,
        Phase::Suspended => Request::Suspend,
        Phase::Polling(Awaited::StartCleared) => Request::ReadCr2,
        Phase::Polling(_) => Request::ReadIsr,
        Phase::Deadline(_) => Request::CheckDeadline,
        Phase::FlushPending => Request::ReadIsr,
        Phase::FlushEmpty => Request::ReadIsr,
        Phase::Data => Request::ReadRxdr,
        Phase::Dma => Request::AwaitDma,
    }
}

/// A step leaves the operation's legs, payload and address as they are.
pub proof fn lemma_settle_keeps(state: Master, ops: Seq<Op>, control: Control)
    ensures
        state.settle(ops, control).state.legs == state.legs,
        state.settle(ops, control).state.bytes == state.bytes,
        state.settle(ops, control).state.address == state.address,
        state.settle(ops, control).state.fail_stop == state.fail_stop,
        state.settle(ops, control).state.received == state.received,
    decreases state.legs.len() - state.leg, control.rank(),
{
    let leg = state.current();
    match control {
        Control::Enter => {
            if !leg.dma {
                lemma_settle_keeps(state, ops, Control::Open);
            }
        },
        Control::Open => {
            if leg.first && !(leg.write || !leg.restart) {
                lemma_settle_keeps(state, ops, Control::Program);
            }
        },
        Control::Program => {
            if !leg.dma {
                let next = Master {
                    chunk: state.chunk + 1,
                    programmed: state.programmed + chunk_size(leg.len as nat, state.programmed),
                    ..state
                };
                lemma_settle_keeps(
                    next,
                    leg.program_onto(ops, state.programmed, state.address),
                    Control::Bytes,
                );
            }
        },
        Control::Bytes => {
            if !(state.done < leg.len) {
                lemma_settle_keeps(state, ops, Control::Close);
            }
        },
        Control::Close => {
            if leg.ending == Ending::Open {
                lemma_settle_keeps(state, ops, Control::Finish);
            }
        },
        Control::Released => {
            if leg.ending == Ending::Release {
                lemma_settle_keeps(state, ops.push(stop_op()), Control::Finish);
            } else {
                lemma_settle_keeps(state, ops, Control::Finish);
            }
        },
        Control::Finish => {
            if state.leg + 1 < state.legs.len() {
                let ops = if leg.dma {
                    ops.push(Op::ModifyCr1(leg.teardown()))
                } else {
                    ops
                };
                lemma_settle_keeps(
                    Master { leg: state.leg + 1, chunk: 0, programmed: 0, done: 0, ..state },
                    ops,
                    Control::Enter,
                );
            }
        },
        Control::Fail(_) => {},
    }
}

/// The master engine.
pub struct I2c {
    legs: Vec<Leg>,
    bytes: Vec<u8>,
    address: u8,
    fail_stop: bool,
    leg: usize,
    chunk: usize,
    programmed: usize,
    done: usize,
    received: Vec<u8>,
    phase: Phase,
}

impl View for I2c {
    type V = Master;

    closed spec fn view(&self) -> Master {
        Master {
            legs: self.legs@,
            bytes: self.bytes@,
            address: self.address,
            fail_stop: self.fail_stop,
            leg: self.leg as nat,
            chunk: self.chunk as nat,
            programmed: self.programmed as nat,
            done: self.done as nat,
            received: self.received@,
            phase: self.phase,
        }
    }
}

impl I2c {
    /// An idle engine.
    pub fn new() -> (engine: I2c)
        ensures
            engine@ == Master::armed(Seq::empty(), Seq::empty(), 0, false),
            engine@.wf(),
    {
        I2c {
            legs: Vec::new(),
            bytes: Vec::new(),
            address: 0,
            fail_stop: false,
            leg: 0,
            chunk: 0,
            programmed: 0,
            done: 0,
            received: Vec::new(),
            phase: Phase::Idle,
        }
    }

    fn park(&mut self, phase: Phase, ops: Vec<Op>) -> (step: Step<()>)
        ensures
            final(self)@ == old(self)@.park(phase, ops@).state,
            step.ops@ == old(self)@.park(phase, ops@).ops,
            step.request == old(self)@.park(phase, ops@).request,
    {
        self.phase = phase;
        Step { ops, request: pending_request(phase) }
    }

    #[verifier::rlimit(50)]
    fn settle(&mut self, ops: Vec<Op>, control: Control) -> (step: Step<()>)
        requires
            old(self)@.ready(control),
        ensures
            final(self)@.wf(),
            final(self)@ == old(self)@.settle(ops@, control).state,
            step.ops@ == old(self)@.settle(ops@, control).ops,
            step.request == old(self)@.settle(ops@, control).request,
    {
        let ghost goal = self@.settle(ops@, control);
        let mut queue = ops;
        let mut next = control;
        loop
            invariant
                self@.ready(next),
                self@.settle(queue@, next) == goal,
                goal == old(self)@.settle(ops@, control),
            decreases self.legs.len() - self.leg, next.rank(),
        {
            let leg = self.legs[self.leg];
            match next {
                Control::Enter => {
                    if leg.dma {
                        queue.push(Op::ModifyCr1(setup_update(&leg)));
                        queue.push(start_dma_command(&leg));
                        return self.park(Phase::Flags, queue);
                    }
                    next = Control::Open;
                },
                Control::Open => {
                    if !leg.first {
                        return self.park(Phase::Polling(Awaited::Reload), queue);
                    }
                    if leg.write || !leg.restart {
                        return self.park(Phase::Polling(Awaited::StartCleared), queue);
                    }
                    next = Control::Program;
                },
                Control::Program => {
                    let at = self.programmed;
                    let chunk = chunk_at(leg.len, at, leg.last);
                    queue.push(Op::ModifyCr2(program_update(&leg, at, self.address)));
                    if leg.dma && !(leg.first && at == 0) {
                        queue.push(rearm_command());
                    }
                    self.chunk = self.chunk + 1;
                    self.programmed = at + chunk.size as usize;
                    if leg.dma {
                        return self.park(Phase::Suspended, queue);
                    }
                    next = Control::Bytes;
                },
                Control::Bytes => {
                    if self.done < leg.len {
                        if self.done == self.programmed {
                            return self.park(Phase::Polling(Awaited::Reload), queue);
                        }
                        let awaited = if leg.write {
                            Awaited::TransmitEmpty
                        } else {
                            Awaited::ReceiveFull
                        };
                        return self.park(Phase::Polling(awaited), queue);
                    }
                    next = Control::Close;
                },
                Control::Close => {
                    match leg.ending {
                        Ending::Open => {
                            next = Control::Finish;
                        },
                        _ => {
                            return self.park(Phase::Polling(Awaited::Complete), queue);
                        },
                    }
                },
                Control::Released => {
                    match leg.ending {
                        Ending::Release => {
                            queue.push(stop_command());
                        },
                        _ => {},
                    }
                    next = Control::Finish;
                },
                Control::Finish => {
                    if leg.dma {
                        queue.push(Op::ModifyCr1(teardown_update(&leg)));
                    }
                    if self.leg + 1 < self.legs.len() {
                        self.leg = self.leg + 1;
                        self.chunk = 0;
                        self.programmed = 0;
                        self.done = 0;
                        next = Control::Enter;
                    } else {
                        self.phase = Phase::Idle;
                        return Step { ops: queue, request: Request::Finish(Ok(())) };
                    }
                },
                Control::Fail(error) => {
                    if self.fail_stop {
                        queue.push(stop_command());
                    }
                    if leg.dma {
                        queue.push(Op::ModifyCr1(abort_update(&leg)));
                    }
                    self.phase = Phase::Idle;
                    return Step { ops: queue, request: Request::Finish(Err(error)) };
                },
            }
        }
    }

    fn fault(&mut self, status: Status, awaited: Awaited) -> (step: Step<()>)
        requires
            old(self)@.wf(),
            old(self)@.phase == Phase::Polling(awaited),
        ensures
            final(self)@.wf(),
            final(self)@ == old(self)@.fault(status, awaited).state,
            step.ops@ == old(self)@.fault(status, awaited).ops,
            step.request == old(self)@.fault(status, awaited).request,
    {
        let mut ops: Vec<Op> = Vec::new();
        if status.berr {
            ops.push(Op::WriteIcr(Flag::Berr));
            assert(ops@ =~= seq![Op::WriteIcr(Flag::Berr)]);
            self.settle(ops, Control::Fail(Error::Bus))
        } else if status.arlo {
            ops.push(Op::WriteIcr(Flag::Arlo));
            assert(ops@ =~= seq![Op::WriteIcr(Flag::Arlo)]);
            self.settle(ops, Control::Fail(Error::Arbitration))
        } else if status.nackf {
            ops.push(Op::WriteIcr(Flag::Nack));
            assert(ops@ =~= seq![Op::WriteIcr(Flag::Nack)]);
            self.park(Phase::FlushPending, ops)
        } else {
            self.park(Phase::Deadline(awaited), ops)
        }
    }

    fn polled(&mut self, awaited: Awaited, word: u32) -> (step: Step<()>)
        requires
            old(self)@.wf(),
            old(self)@.phase == Phase::Polling(awaited),
        ensures
            final(self)@.wf(),
            final(self)@ == old(self)@.polled(awaited, word).state,
            step.ops@ == old(self)@.polled(awaited, word).ops,
            step.request == old(self)@.polled(awaited, word).request,
    {
        let status = Status::decode(word);
        let mut ops: Vec<Op> = Vec::new();
        match awaited {
            Awaited::StartCleared => {
                if decode_start(word) {
                    self.park(Phase::Deadline(awaited), ops)
                } else {
                    self.settle(ops, Control::Program)
                }
            },
            Awaited::Reload => {
                if status.tcr {
                    self.settle(ops, Control::Program)
                } else {
                    self.park(Phase::Deadline(awaited), ops)
                }
            },
            Awaited::TransmitEmpty => {
                if status.txe {
                    let leg = self.legs[self.leg];
                    let payload: usize = self.bytes.len();
                    assert(self@.current().fits(payload as nat));
                    ops.push(Op::WriteTxdr(self.bytes[leg.offset + self.done]));
                    assert(ops@ =~= seq![
                        Op::WriteTxdr(old(self)@.bytes[old(self)@.current().offset + old(self)@.done]),
                    ]);
                    self.done = self.done + 1;
                    self.settle(ops, Control::Bytes)
                } else {
                    self.fault(status, awaited)
                }
            },
            Awaited::ReceiveFull => {
                if status.rxne {
                    self.park(Phase::Data, ops)
                } else {
                    self.fault(status, awaited)
                }
            },
            Awaited::Complete => {
                if status.tc {
                    self.settle(ops, Control::Released)
                } else {
                    self.fault(status, awaited)
                }
            },
        }
    }

    fn woken(&mut self, word: u32) -> (step: Step<()>)
        requires
            old(self)@.wf(),
            old(self)@.phase == Phase::Flags,
        ensures
            final(self)@.wf(),
            final(self)@ == old(self)@.woken(word).state,
            step.ops@ == old(self)@.woken(word).ops,
            step.request == old(self)@.woken(word).request,
    {
        let status = Status::decode(word);
        let ops: Vec<Op> = Vec::new();
        let leg = self.legs[self.leg];
        if self.chunk == 0 {
            self.settle(ops, Control::Open)
        } else if !(status.tcr || status.tc) {
            self.park(Phase::Suspended, ops)
        } else if self.programmed >= leg.len {
            self.park(Phase::Dma, ops)
        } else {
            self.park(Phase::Polling(Awaited::Reload), ops)
        }
    }

    /// Takes the answer to the request that stands and goes on to the next
    /// one. An answer of another kind changes nothing, and the request is
    /// handed out again.
    pub fn advance(&mut self, input: Input) -> (step: Step<()>)
        requires
            old(self)@.wf(),
        ensures
            final(self)@.wf(),
            final(self)@ == old(self)@.advance(input).state,
            step.ops@ == old(self)@.advance(input).ops,
            step.request == old(self)@.advance(input).request,
    {
        let phase = self.phase;
        match (phase, input) {
            (Phase::Polling(awaited), Input::Word(word)) => self.polled(awaited, word),
            (Phase::Deadline(awaited), Input::Expired(false)) => self.park(
                Phase::Polling(awaited),
                Vec::new(),
            ),
            (Phase::Deadline(_), Input::Expired(true)) => self.settle(
                Vec::new(),
                Control::Fail(Error::Timeout),
            ),
            (Phase::Data, Input::Word(word)) => {
                self.received.push(decode_data(word));
                self.done = self.done + 1;
                self.settle(Vec::new(), Control::Bytes)
            },
            (Phase::FlushPending, Input::Word(word)) => {
                let mut ops: Vec<Op> = Vec::new();
                if Status::decode(word).txis {
                    ops.push(Op::WriteTxdr(0));
                    assert(ops@ =~= seq![Op::WriteTxdr(0)]);
                }
                self.park(Phase::FlushEmpty, ops)
            },
            (Phase::FlushEmpty, Input::Word(word)) => {
                let mut ops: Vec<Op> = Vec::new();
                if !Status::decode(word).txe {
                    ops.push(Op::FlushTransmit);
                    assert(ops@ =~= seq![Op::FlushTransmit]);
                }
                self.settle(ops, Control::Fail(Error::Nack))
            },
            (Phase::Flags, Input::Word(word)) => self.woken(word),
            (Phase::Suspended, Input::Woken) => self.park(Phase::Flags, Vec::new()),
            (Phase::Suspended, Input::Expired(true)) => self.settle(
                Vec::new(),
                Control::Fail(Error::Timeout),
            ),
            (Phase::Dma, Input::DmaDone) => self.settle(Vec::new(), Control::Close),
            (Phase::Dma, Input::Expired(true)) => self.settle(
                Vec::new(),
                Control::Fail(Error::Timeout),
            ),
            _ => self.park(phase, Vec::new()),
        }
    }

    fn begin(&mut self, legs: Vec<Leg>, bytes: Vec<u8>, address: u8, fail_stop: bool) -> (step: Step<
        (),
    >)
        requires
            forall|i: int| 0 <= i < legs@.len() ==> (#[trigger] legs@[i]).fits(bytes@.len()),
        ensures
            final(self)@.wf(),
            yields(step, final(self)@, Master::begin(legs@, bytes@, address, fail_stop)),
    {
        let none = legs.len() == 0;
        self.legs = legs;
        self.bytes = bytes;
        self.address = address;
        self.fail_stop = fail_stop;
        self.leg = 0;
        self.chunk = 0;
        self.programmed = 0;
        self.done = 0;
        self.received = Vec::new();
        self.phase = Phase::Idle;
        if none {
            Step { ops: Vec::new(), request: Request::Finish(Err(Error::ZeroLengthTransfer)) }
        } else {
            self.settle(Vec::new(), Control::Enter)
        }
    }

    fn begin_vectored(&mut self, address: u8, write: &[&[u8]], dma: bool) -> (step: Step<()>)
        ensures
            final(self)@.wf(),
            yields(
                step,
                final(self)@,
                Master::begin(
                    vectored_legs(buffers(write), dma),
                    if dma {
                        Seq::empty()
                    } else {
                        joined(buffers(write), write@.len())
                    },
                    address,
                    true,
                ),
            ),
            step.request == Request::<()>::Finish(Err(Error::ZeroLengthTransfer)) <==> write@.len()
                == 0,
    {
        let count: usize = write.len();
        let ghost all = buffers(write);
        let mut legs: Vec<Leg> = Vec::new();
        let mut bytes: Vec<u8> = Vec::new();
        let mut i: usize = 0;
        while i < count
            invariant
                count == write@.len(),
                all == buffers(write),
                i <= count,
                legs@ == scanned(all, i as nat, dma),
                bytes@ == (if dma {
                    Seq::empty()
                } else {
                    joined(all, i as nat)
                }),
                forall|k: int| 0 <= k < legs@.len() ==> (#[trigger] legs@[k]).fits(bytes@.len()),
            decreases count - i,
        {
            let buffer: &[u8] = write[i];
            assert(all[i as int] == buffer@);
            if buffer.len() > 0 {
                let offset: usize = bytes.len();
                if !dma {
                    append(&mut bytes, buffer);
                }
                let opening = legs.len() == 0;
                legs.push(
                    write_leg_of(buffer.len(), offset, i, dma, opening, false, Ending::Open),
                );
            } else {
                assert(joined(all, (i + 1) as nat) =~= joined(all, i as nat));
            }
            i = i + 1;
        }
        let found: usize = legs.len();
        if count > 0 {
            if found == 0 {
                legs.push(write_leg_of(0, 0, 0, false, true, true, Ending::Release));
            } else {
                let open = legs[found - 1];
                legs.set(found - 1, Leg { last: true, ending: Ending::Release, ..open });
            }
        }
        proof {
            assert(legs@ =~= vectored_legs(all, dma));
            if count > 0 {
                crate::laws::lemma_settle_fails(
                    Master::armed(legs@, bytes@, address, true),
                    Seq::empty(),
                    Control::Enter,
                );
            }
        }
        self.begin(legs, bytes, address, true)
    }

    /// Begins a blocking read of `len` bytes: one address phase, the chunks
    /// with reload on all but the last, and STOP left to the peripheral. The
    /// bytes are collected in the engine.
    pub fn blocking_read(&mut self, address: u8, len: usize) -> (step: Step<()>)
        ensures
            final(self)@.wf(),
            yields(
                step,
                final(self)@,
                Master::begin(seq![read_leg(len, false, false)], Seq::empty(), address, false),
            ),
    {
        let mut legs: Vec<Leg> = Vec::new();
        legs.push(read_leg_of(len, false, false));
        assert(legs@ =~= seq![read_leg(len, false, false)]);
        self.begin(legs, Vec::new(), address, false)
    }

    /// Begins a blocking write: one address phase, every byte in order, then
    /// transfer-complete and STOP. A failure releases the bus as well.
    pub fn blocking_write(&mut self, address: u8, write: &[u8]) -> (step: Step<()>)
        ensures
            final(self)@.wf(),
            yields(
                step,
                final(self)@,
                Master::begin(
                    seq![write_leg(write@.len() as usize, 0, 0, false, true, true, Ending::Release)],
                    write@,
                    address,
                    true,
                ),
            ),
    {
        let mut bytes: Vec<u8> = Vec::new();
        append(&mut bytes, write);
        assert(bytes@ =~= write@);
        let mut legs: Vec<Leg> = Vec::new();
        legs.push(write_leg_of(write.len(), 0, 0, false, true, true, Ending::Release));
        assert(legs@ =~= seq![
            write_leg(write@.len() as usize, 0, 0, false, true, true, Ending::Release),
        ]);
        self.begin(legs, bytes, address, true)
    }

    /// Begins a blocking write followed by a read under a repeated START:
    /// the write holds the bus at its end, and no failure releases it.
    pub fn blocking_write_read(&mut self, address: u8, write: &[u8], read_len: usize) -> (step: Step<
        (),
    >)
        ensures
            final(self)@.wf(),
            yields(
                step,
                final(self)@,
                Master::begin(
                    seq![
                        write_leg(write@.len() as usize, 0, 0, false, true, true, Ending::Hold),
                        read_leg(read_len, false, true),
                    ],
                    write@,
                    address,
                    false,
                ),
            ),
    {
        let mut bytes: Vec<u8> = Vec::new();
        append(&mut bytes, write);
        assert(bytes@ =~= write@);
        let mut legs: Vec<Leg> = Vec::new();
        legs.push(write_leg_of(write.len(), 0, 0, false, true, true, Ending::Hold));
        legs.push(read_leg_of(read_len, false, true));
        assert(legs@ =~= seq![
            write_leg(write@.len() as usize, 0, 0, false, true, true, Ending::Hold),
            read_leg(read_len, false, true),
        ]);
        self.begin(legs, bytes, address, false)
    }

    /// Begins a blocking write of several buffers as one transfer: one
    /// address phase, reload at every chunk and buffer boundary, and one STOP
    /// after the last byte of the last buffer. An empty buffer takes no step.
    /// Without any buffer, and only then, the operation is over at once with
    /// `ZeroLengthTransfer`, and no command is handed out.
    pub fn blocking_write_vectored(&mut self, address: u8, write: &[&[u8]]) -> (step: Step<()>)
        ensures
            final(self)@.wf(),
            yields(
                step,
                final(self)@,
                Master::begin(
                    vectored_legs(buffers(write), false),
                    joined(buffers(write), write@.len()),
                    address,
                    true,
                ),
            ),
            step.request == Request::<()>::Finish(Err(Error::ZeroLengthTransfer)) <==> write@.len()
                == 0,
            write@.len() == 0 ==> step.ops@.len() == 0,
    {
        self.begin_vectored(address, write, false)
    }

    /// Begins a write by DMA, or a blocking one where there is nothing to
    /// write.
    pub fn write(&mut self, address: u8, write: &[u8]) -> (step: Step<()>)
        ensures
            final(self)@.wf(),
            yields(
                step,
                final(self)@,
                Master::begin(
                    seq![
                        write_leg(
                            write@.len() as usize,
                            0,
                            0,
                            write@.len() > 0,
                            true,
                            true,
                            Ending::Release,
                        ),
                    ],
                    Seq::empty(),
                    address,
                    true,
                ),
            ),
    {
        let len: usize = write.len();
        let mut legs: Vec<Leg> = Vec::new();
        legs.push(write_leg_of(len, 0, 0, len > 0, true, true, Ending::Release));
        assert(legs@ =~= seq![
            write_leg(write@.len() as usize, 0, 0, write@.len() > 0, true, true, Ending::Release),
        ]);
        self.begin(legs, Vec::new(), address, true)
    }

    /// Begins a write of several buffers by DMA, as one transfer. An empty
    /// buffer is not handed to the DMA engine and takes no step; where no
    /// buffer holds a byte, the write is the blocking one of nothing. Without
    /// any buffer, and only then, the operation is over at once with
    /// `ZeroLengthTransfer`, and no command is handed out.
    pub fn write_vectored(&mut self, address: u8, write: &[&[u8]]) -> (step: Step<()>)
        ensures
            final(self)@.wf(),
            yields(
                step,
                final(self)@,
                Master::begin(vectored_legs(buffers(write), true), Seq::empty(), address, true),
            ),
            step.request == Request::<()>::Finish(Err(Error::ZeroLengthTransfer)) <==> write@.len()
                == 0,
            write@.len() == 0 ==> step.ops@.len() == 0,
    {
        self.begin_vectored(address, write, true)
    }

    /// Begins a read of `len` bytes by DMA, or a blocking one where there is
    /// nothing to read.
    pub fn read(&mut self, address: u8, len: usize) -> (step: Step<()>)
        ensures
            final(self)@.wf(),
            yields(
                step,
                final(self)@,
                Master::begin(seq![read_leg(len, len > 0, false)], Seq::empty(), address, false),
            ),
    {
        let mut legs: Vec<Leg> = Vec::new();
        legs.push(read_leg_of(len, len > 0, false));
        assert(legs@ =~= seq![read_leg(len, len > 0, false)]);
        self.begin(legs, Vec::new(), address, false)
    }

    /// Begins a write followed by a read under a repeated START, each by DMA
    /// unless it is empty. The write holds the bus at its end.
    pub fn write_read(&mut self, address: u8, write: &[u8], read_len: usize) -> (step: Step<()>)
        ensures
            final(self)@.wf(),
            yields(
                step,
                final(self)@,
                Master::begin(
                    seq![
                        write_leg(
                            write@.len() as usize,
                            0,
                            0,
                            write@.len() > 0,
                            true,
                            true,
                            Ending::Hold,
                        ),
                        read_leg(read_len, read_len > 0, true),
                    ],
                    Seq::empty(),
                    address,
                    false,
                ),
            ),
    {
        let len: usize = write.len();
        let mut legs: Vec<Leg> = Vec::new();
        legs.push(write_leg_of(len, 0, 0, len > 0, true, true, Ending::Hold));
        legs.push(read_leg_of(read_len, read_len > 0, true));
        assert(legs@ =~= seq![
            write_leg(write@.len() as usize, 0, 0, write@.len() > 0, true, true, Ending::Hold),
            read_leg(read_len, read_len > 0, true),
        ]);
        self.begin(legs, Vec::new(), address, false)
    }

    /// Abandons the operation under way. Where a DMA leg is under way, the
    /// command handed out switches DMA requests and the completion interrupt
    /// off; the bus is left as it is.
    pub fn cancel(&mut self) -> (ops: Vec<Op>)
        requires
            old(self)@.wf(),
        ensures
            final(self)@.wf(),
            final(self)@ == old(self)@.cancel().0,
            ops@ == old(self)@.cancel().1,
    {
        let mut ops: Vec<Op> = Vec::new();
        match self.phase {
            Phase::Idle => {},
            _ => {
                let leg = self.legs[self.leg];
                if leg.dma {
                    ops.push(Op::ModifyCr1(abort_update(&leg)));
                    assert(ops@ =~= seq![Op::ModifyCr1(leg.abort())]);
                }
            },
        }
        self.phase = Phase::Idle;
        ops
    }

    /// The bytes that blocking reads of the operation have received so far.
    pub fn received(&self) -> (bytes: &Vec<u8>)
        ensures
            bytes@ == self@.received,
    {
        &self.received
    }

    /// The commands that bring the peripheral up for a kernel clock and a
    /// bus rate: peripheral off with the analog filter on, the timing
    /// register, peripheral on.
    pub fn init(&self, i2cclk: Hertz, freq: Hertz) -> (ops: Vec<Op>)
        requires
            Timings::accepts_spec(i2cclk.0, freq.0),
        ensures
            ops@ == init_ops(Timings::spec_new(i2cclk.0, freq.0)),
    {
        let timings = Timings::new(i2cclk, freq);
        let mut ops: Vec<Op> = Vec::new();
        ops.push(
            Op::ModifyCr1(Cr1Update { pe: Some(false), anfoff: Some(false), ..Cr1Update::keep() }),
        );
        ops.push(timing_command(timings));
        ops.push(Op::ModifyCr1(Cr1Update { pe: Some(true), ..Cr1Update::keep() }));
        assert(ops@ =~= init_ops(timings));
        ops
    }

    /// The command that sets the timing register for another bus rate.
    pub fn set_config(&self, i2cclk: Hertz, config: &Hertz) -> (op: Op)
        requires
            Timings::accepts_spec(i2cclk.0, config.0),
        ensures
            op == timing_op(Timings::spec_new(i2cclk.0, config.0)),
    {
        timing_command(Timings::new(i2cclk, *config))
    }
}

fn timing_command(timings: Timings) -> (op: Op)
    ensures
        op == timing_op(timings),
{
    Op::WriteTimingr(
        TimingWrite {
            presc: timings.prescale,
            periods: Some((timings.scll, timings.sclh)),
            sdadel: timings.sdadel,
            scldel: timings.scldel,
        },
    )
}

} // verus!
