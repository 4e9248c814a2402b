//! The slave engine: own addresses, the wait for an address match, and the
//! two answers to it, reception and transmission by DMA.
use vstd::prelude::*;
use crate::engine::{Input, Op, Outcome, Request, Step};
use crate::regs::{decode_data, received_byte, Cr1Update, Cr2Update, Flag, Status, TimingWrite};
use crate::timing::Timings;
use crate::types::{
    Command, CommandKind, Direction, Error, Hertz, OwnAddress, OwnAddresses, ReceiveStatus,
    SendStatus, SlaveConfig,
};

verus! {

/// What a slave operation ends with.
#[derive(Clone, Copy, Debug, PartialEq, Eq)]
pub enum SlaveReply {
    /// `listen`: what the master asks for, and of which address.
    Command(Command),
    /// `respond_to_receive`: how the reception ended.
    Received(ReceiveStatus),
    /// `respond_to_send`: how the transmission ended.
    Sent(SendStatus),
}

/// Where the slave engine stands: which answer it waits for.
#[derive(Clone, Copy, Debug, PartialEq, Eq)]
pub enum SlavePhase {
    /// No operation is under way.
    Idle,
    /// Listening: the status register is read for an address match.
    Listening,
    /// Listening: asleep until woken.
    ListenSuspended,
    /// An address matched: the status register is read for the match code.
    Matching(CommandKind),
    /// A ten-bit address matched with this code: the status register is read
    /// for the byte that holds the low address bits.
    LowByte(CommandKind, u8),
    /// The low address byte is not there yet: the deadline is checked.
    LowByteDeadline(CommandKind, u8),
    /// The low address byte is read from the receive register.
    LowByteData(CommandKind, u8),
    /// Receiving: the status register is read for a stop condition.
    Receiving,
    /// Receiving: asleep until woken.
    ReceiveSuspended,
    /// Receiving: the DMA engine is asked what it has left.
    ReceiveCount,
    /// This many bytes were received: the DMA engine is awaited.
    ReceiveDrain(usize),
    /// After a reception of this many bytes: the status register is read
    /// for a new address match.
    Turnaround(usize),
    /// After a reception of this many bytes: asleep until woken.
    TurnaroundSuspended(usize),
    /// Sending: the status register is read for a stop condition.
    Sending,
    /// Sending: the DMA engine is asked whether it is done.
    SendProbe,
    /// Sending: asleep until woken.
    SendSuspended,
    /// Sending: the DMA engine is asked what it has left.
    SendCount,
    /// The transmission ended like this: the DMA engine is awaited.
    SendDrain(SendStatus),
}

/// The match code of a ten-bit address: of its seven bits the upper five are
/// the header `11110`, the lower two the high address bits.
pub open spec fn ten_bit_header(matched: u8) -> bool {
    matched >> 2 == 0b11110
}

/// A ten-bit address from its match code and its low byte.
pub open spec fn ten_bit_address(matched: u8, low: u8) -> u16 {
    ((matched as u16) << 6) | (low as u16)
}

/// The commands that set the own addresses: one register write per slot in
/// use, the first slot first.
pub open spec fn address_ops(addresses: OwnAddresses) -> Seq<Op> {
    match addresses {
        OwnAddresses::OA1(oa1) => seq![Op::WriteOar1(oa1)],
        OwnAddresses::OA2(oa2) => seq![Op::WriteOar2(oa2)],
        OwnAddresses::Both { oa1, oa2 } => seq![Op::WriteOar1(oa1), Op::WriteOar2(oa2)],
    }
}

/// The command that writes prescaler, hold and setup time to the timing
/// register; a slave does not drive the clock.
pub open spec fn slave_timing_op(timings: Timings) -> Op {
    Op::WriteTimingr(
        TimingWrite {
            presc: timings.prescale,
            periods: None,
            sdadel: timings.sdadel,
            scldel: timings.scldel,
        },
    )
}

/// The commands that bring the peripheral up as a slave: off, timing, on
/// with clock stretching and byte control, then the own addresses.
pub open spec fn slave_init_ops(timings: Timings, config: SlaveConfig) -> Seq<Op> {
    seq![
        Op::ModifyCr1(Cr1Update { pe: Some(false), anfoff: Some(false), ..Cr1Update::keep() }),
        slave_timing_op(timings),
        Op::ModifyCr1(
            Cr1Update {
                nostretch: Some(false),
                gcen: Some(config.general_call),
                sbc: Some(true),
                pe: Some(true),
                ..Cr1Update::keep()
            },
        ),
    ] + address_ops(config.addr)
}

/// Enabling or disabling what a reception by DMA needs: receive DMA
/// requests and the stop interrupt.
pub open spec fn receive_enables(on: bool) -> Op {
    Op::ModifyCr1(Cr1Update { rxdmaen: Some(on), stopie: Some(on), ..Cr1Update::keep() })
}

/// Enabling or disabling what a transmission by DMA needs: transmit DMA
/// requests, the transmit interrupt and the stop interrupt.
pub open spec fn send_enables(on: bool) -> Op {
    Op::ModifyCr1(
        Cr1Update { txdmaen: Some(on), txie: Some(on), stopie: Some(on), ..Cr1Update::keep() },
    )
}

/// The command that enables the address match interrupt.
pub open spec fn listen_op() -> Op {
    Op::ModifyCr1(Cr1Update { addrie: Some(true), ..Cr1Update::keep() })
}

/// The command that sets whether the next byte is answered with NACK.
pub open spec fn nack_op(on: bool) -> Op {
    Op::ModifyCr2(Cr2Update { nack: Some(on), ..Cr2Update::keep() })
}

/// The command that sets the byte counter for a transmission of `len`
/// bytes; the counter holds the length's low eight bits.
pub open spec fn count_op(len: usize) -> Op {
    Op::ModifyCr2(Cr2Update { nbytes: Some((len % 256) as u8), ..Cr2Update::keep() })
}

/// The request that stands while the engine is in `phase`.
pub open spec fn slave_pending(phase: SlavePhase) -> Request<SlaveReply> {
    match phase {
        SlavePhase::Idle => Request::Idle,
        SlavePhase::Listening => Request::ReadIsr,
        SlavePhase::ListenSuspended => Request::Suspend,
        SlavePhase::Matching(_) => Request::ReadIsr,
        SlavePhase::LowByte(_, _) => Request::ReadIsr,
        SlavePhase::LowByteDeadline(_, _) => Request::CheckDeadline,
        SlavePhase::LowByteData(_, _) => Request::ReadRxdr,
        SlavePhase::Receiving => Request::ReadIsr,
        SlavePhase::ReceiveSuspended => Request::Suspend,
        SlavePhase::ReceiveCount => Request::DmaRemaining,
        SlavePhase::ReceiveDrain(_) => Request::AwaitDma,
        SlavePhase::Turnaround(_) => Request::ReadIsr,
        SlavePhase::TurnaroundSuspended(_) => Request::Suspend,
        SlavePhase::Sending => Request::ReadIsr,
        SlavePhase::SendProbe => Request::PollDma,
        SlavePhase::SendSuspended => Request::Suspend,
        SlavePhase::SendCount => Request::DmaRemaining,
        SlavePhase::SendDrain(_) => Request::AwaitDma,
    }
}

/// The slave engine as specifications see it.
#[derive(Clone, Copy, Debug, PartialEq, Eq)]
pub struct Slave {
    /// Which answer is awaited.
    pub phase: SlavePhase,
    /// The length of the buffer handed to the DMA engine.
    pub len: usize,
}

impl Slave {
    /// The engine parked in `phase`, with the request of that phase.
    pub open spec fn park(self, phase: SlavePhase, ops: Seq<Op>) -> Outcome<Slave, SlaveReply> {
        Outcome { state: Slave { phase, ..self }, ops, request: slave_pending(phase) }
    }

    /// The operation over, with its result.
    pub open spec fn finish(self, ops: Seq<Op>, result: Result<SlaveReply, Error>) -> Outcome<
        Slave,
        SlaveReply,
    > {
        Outcome {
            state: Slave { phase: SlavePhase::Idle, ..self },
            ops,
            request: Request::Finish(result),
        }
    }

    /// The first step of `listen`: the address match interrupt goes on and
    /// the status register is read.
    pub open spec fn listen() -> Outcome<Slave, SlaveReply> {
        (Slave { phase: SlavePhase::Idle, len: 0 }).park(SlavePhase::Listening, seq![listen_op()])
    }

    /// The first step of `respond_to_receive`: DMA requests and the stop
    /// interrupt go on, the DMA engine starts, and only then the match flag
    /// is cleared, which lets the bytes flow.
    pub open spec fn respond_to_receive(len: usize) -> Outcome<Slave, SlaveReply> {
        (Slave { phase: SlavePhase::Idle, len }).park(
            SlavePhase::Receiving,
            seq![receive_enables(true), Op::StartDmaRead { len }, Op::WriteIcr(Flag::Addr)],
        )
    }

    /// The first step of `respond_to_send`: the byte counter is set, DMA
    /// requests and interrupts go on, the DMA engine starts, and only then
    /// the match flag is cleared, which ends the clock stretch; NACK is
    /// disarmed.
    pub open spec fn respond_to_send(len: usize) -> Outcome<Slave, SlaveReply> {
        (Slave { phase: SlavePhase::Idle, len }).park(
            SlavePhase::Sending,
            seq![
                count_op(len),
                send_enables(true),
                Op::StartDmaWrite { buffer: 0, len },
                Op::WriteIcr(Flag::Addr),
                nack_op(false),
            ],
        )
    }

    /// An address match: where the master writes, the match flag is cleared
    /// at once; where it reads, the flag stays set, so that the clock is
    /// stretched until data is supplied.
    pub open spec fn matched(self, status: Status) -> Outcome<Slave, SlaveReply> {
        if !status.addr {
            self.park(SlavePhase::ListenSuspended, Seq::empty())
        } else if status.dir == Direction::Write {
            self.park(SlavePhase::Matching(CommandKind::SlaveReceive), seq![Op::WriteIcr(Flag::Addr)])
        } else {
            self.park(SlavePhase::Matching(CommandKind::SlaveSend), Seq::empty())
        }
    }

    /// How many bytes came in when the DMA engine has `remaining` left.
    pub open spec fn received_count(self, remaining: usize) -> usize {
        if remaining <= self.len {
            (self.len - remaining) as usize
        } else {
            0
        }
    }

    /// How a transmission ended when the DMA engine has `remaining` left at
    /// the stop condition.
    pub open spec fn send_status(remaining: usize) -> SendStatus {
        if remaining > 0 {
            SendStatus::LeftoverBytes(remaining)
        } else {
            SendStatus::Done
        }
    }

    /// One step of the engine: the answer `input` to the request that stands.
    /// An answer of another kind changes nothing, and the request stands.
    pub open spec fn advance(self, input: Input) -> Outcome<Slave, SlaveReply> {
        match (self.phase, input) {
            (SlavePhase::Listening, Input::Word(word)) => self.matched(Status::of(word)),
            (SlavePhase::ListenSuspended, Input::Woken) => self.park(
                SlavePhase::Listening,
                Seq::empty(),
            ),
            (SlavePhase::Matching(kind), Input::Word(word)) => {
                let code = Status::of(word).addcode;
                if ten_bit_header(code) {
                    self.park(SlavePhase::LowByte(kind, code), Seq::empty())
                } else {
                    self.finish(
                        Seq::empty(),
                        Ok(SlaveReply::Command(Command { kind, address: OwnAddress::SevenBit(code) })),
                    )
                }
            },
            (SlavePhase::LowByte(kind, code), Input::Word(word)) => if Status::of(word).rxne {
                self.park(SlavePhase::LowByteData(kind, code), Seq::empty())
            } else {
                self.park(SlavePhase::LowByteDeadline(kind, code), Seq::empty())
            },
            (SlavePhase::LowByteDeadline(kind, code), Input::Expired(false)) => self.park(
                SlavePhase::LowByte(kind, code),
                Seq::empty(),
            ),
            (SlavePhase::LowByteDeadline(_, _), Input::Expired(true)) => self.finish(
                Seq::empty(),
                Err(Error::Timeout),
            ),
            (SlavePhase::LowByteData(kind, code), Input::Word(word)) => self.finish(
                Seq::empty(),
                Ok(
                    SlaveReply::Command(
                        Command {
                            kind,
                            address: OwnAddress::TenBit(ten_bit_address(code, received_byte(word))),
                        },
                    ),
                ),
            ),
            (SlavePhase::Receiving, Input::Word(word)) => if Status::of(word).stopf {
                self.park(SlavePhase::ReceiveCount, seq![Op::WriteIcr(Flag::Stop)])
            } else {
                self.park(SlavePhase::ReceiveSuspended, Seq::empty())
            },
            (SlavePhase::ReceiveSuspended, Input::Woken) => self.park(
                SlavePhase::Receiving,
                Seq::empty(),
            ),
            (SlavePhase::ReceiveSuspended, Input::Expired(true)) => self.finish(
                seq![receive_enables(false)],
                Err(Error::Timeout),
            ),
            (SlavePhase::ReceiveCount, Input::Remaining(remaining)) => self.park(
                SlavePhase::ReceiveDrain(self.received_count(remaining)),
                seq![Op::StopDma],
            ),
            (SlavePhase::ReceiveDrain(size), Input::DmaDone) => self.park(
                SlavePhase::Turnaround(size),
                seq![receive_enables(false), listen_op()],
            ),
            (SlavePhase::ReceiveDrain(_), Input::Expired(true)) => self.finish(
                seq![receive_enables(false)],
                Err(Error::Timeout),
            ),
            (SlavePhase::Turnaround(size), Input::Word(word)) => {
                let status = Status::of(word);
                if !status.addr {
                    self.park(SlavePhase::TurnaroundSuspended(size), Seq::empty())
                } else if status.dir == Direction::Read {
                    self.finish(
                        Seq::empty(),
                        Ok(SlaveReply::Received(ReceiveStatus::SendRequested(size))),
                    )
                } else {
                    self.finish(Seq::empty(), Ok(SlaveReply::Received(ReceiveStatus::Done(size))))
                }
            },
            (SlavePhase::TurnaroundSuspended(size), Input::Woken) => self.park(
                SlavePhase::Turnaround(size),
                Seq::empty(),
            ),
            (SlavePhase::TurnaroundSuspended(size), Input::Expired(true)) => self.finish(
                Seq::empty(),
                Ok(SlaveReply::Received(ReceiveStatus::Done(size))),
            ),
            (SlavePhase::Sending, Input::Word(word)) => if Status::of(word).stopf {
                self.park(SlavePhase::SendCount, seq![Op::WriteIcr(Flag::Stop)])
            } else {
                self.park(SlavePhase::SendProbe, Seq::empty())
            },
            (SlavePhase::SendProbe, Input::DmaReady(true)) => self.park(
                SlavePhase::SendDrain(SendStatus::MoreBytesRequested),
                seq![nack_op(true)],
            ),
            (SlavePhase::SendProbe, Input::DmaReady(false)) => self.park(
                SlavePhase::SendSuspended,
                Seq::empty(),
            ),
            (SlavePhase::SendSuspended, Input::Woken) => self.park(
                SlavePhase::Sending,
                Seq::empty(),
            ),
            (SlavePhase::SendSuspended, Input::Expired(true)) => self.finish(
                seq![send_enables(false)],
                Err(Error::Timeout),
            ),
            (SlavePhase::SendCount, Input::Remaining(remaining)) => self.park(
                SlavePhase::SendDrain(Self::send_status(remaining)),
                if remaining > 0 {
                    seq![Op::StopDma]
                } else {
                    Seq::empty()
                },
            ),
            (SlavePhase::SendDrain(status), Input::DmaDone) => self.finish(
                seq![send_enables(false)],
                Ok(SlaveReply::Sent(status)),
            ),
            (SlavePhase::SendDrain(_), Input::Expired(true)) => self.finish(
                seq![send_enables(false)],
                Err(Error::Timeout),
            ),
            _ => self.park(self.phase, Seq::empty()),
        }
    }

    /// The command that switches off what the operation under way enabled
    /// for the DMA engine, if it enabled anything.
    pub open spec fn cleanup(self) -> Seq<Op> {
        match self.phase {
            SlavePhase::Receiving
            | SlavePhase::ReceiveSuspended
            | SlavePhase::ReceiveCount
            | SlavePhase::ReceiveDrain(_) => seq![receive_enables(false)],
            SlavePhase::Sending
            | SlavePhase::SendProbe
            | SlavePhase::SendSuspended
            | SlavePhase::SendCount
            | SlavePhase::SendDrain(_) => seq![send_enables(false)],
            _ => Seq::empty(),
        }
    }
}

fn receive_enables_command(on: bool) -> (op: Op)
    ensures
        op == receive_enables(on),
{
    Op::ModifyCr1(Cr1Update { rxdmaen: Some(on), stopie: Some(on), ..Cr1Update::keep() })
}

fn send_enables_command(on: bool) -> (op: Op)
    ensures
        op == send_enables(on),
{
    Op::ModifyCr1(
        Cr1Update { txdmaen: Some(on), txie: Some(on), stopie: Some(on), ..Cr1Update::keep() },
    )
}

fn listen_command() -> (op: Op)
    ensures
        op == listen_op(),
{
    Op::ModifyCr1(Cr1Update { addrie: Some(true), ..Cr1Update::keep() })
}

fn nack_command(on: bool) -> (op: Op)
    ensures
        op == nack_op(on),
{
    Op::ModifyCr2(Cr2Update { nack: Some(on), ..Cr2Update::keep() })
}

fn count_command(len: usize) -> (op: Op)
    ensures
        op == count_op(len),
{
    Op::ModifyCr2(Cr2Update { nbytes: Some((len % 256) as u8), ..Cr2Update::keep() })
}

fn pending_request(phase: SlavePhase) -> (request: Request<SlaveReply>)
    ensures
        request == slave_pending(phase),
{
    match phase {
        SlavePhase::Idle => Request::Idle,
        SlavePhase::Listening => Request::ReadIsr,
        SlavePhase::ListenSuspended => Request::Suspend,
        SlavePhase::Matching(_) => Request::ReadIsr,
        SlavePhase::LowByte(_, _) => Request::ReadIsr,
        SlavePhase::LowByteDeadline(_, _) => Request::CheckDeadline,
        SlavePhase::LowByteData(_, _) => Request::ReadRxdr,
        SlavePhase::Receiving => Request::ReadIsr,
        SlavePhase::ReceiveSuspended => Request::Suspend,
        SlavePhase::ReceiveCount => Request::DmaRemaining,
        SlavePhase::ReceiveDrain(_) => Request::AwaitDma,
        SlavePhase::Turnaround(_) => Request::ReadIsr,
        SlavePhase::TurnaroundSuspended(_) => Request::Suspend,
        SlavePhase::Sending => Request::ReadIsr,
        SlavePhase::SendProbe => Request::PollDma,
        SlavePhase::SendSuspended => Request::Suspend,
        SlavePhase::SendCount => Request::DmaRemaining,
        SlavePhase::SendDrain(_) => Request::AwaitDma,
    }
}

fn one(op: Op) -> (ops: Vec<Op>)
    ensures
        ops@ == seq![op],
{
    let mut ops: Vec<Op> = Vec::new();
    ops.push(op);
    assert(ops@ =~= seq![op]);
    ops
}

/// Whether a step and the engine after it are what `out` says.
pub open spec fn slave_yields(
    step: Step<SlaveReply>,
    state: Slave,
    out: Outcome<Slave, SlaveReply>,
) -> bool {
    &&& state == out.state
    &&& step.ops@ == out.ops
    &&& step.request == out.request
}

/// Tells whether a match code is that of a ten-bit address.
pub fn is_ten_bit_header(matched: u8) -> (ten: bool)
    ensures
        ten == ten_bit_header(matched),
{
    matched >> 2 == 0b11110
}

/// Puts a ten-bit address together from its match code and its low byte.
pub fn combine_ten_bit(matched: u8, low: u8) -> (address: u16)
    ensures
        address == ten_bit_address(matched, low),
{
    let high: u16 = matched as u16;
    (high << 6) | (low as u16)
}

/// The slave engine.
pub struct I2cSlave {
    state: Slave,
}

impl View for I2cSlave {
    type V = Slave;

    closed spec fn view(&self) -> Slave {
        self.state
    }
}

impl I2cSlave {
    /// An idle engine.
    pub fn new() -> (engine: I2cSlave)
        ensures
            engine@ == (Slave { phase: SlavePhase::Idle, len: 0 }),
    {
        I2cSlave { state: Slave { phase: SlavePhase::Idle, len: 0 } }
    }

    fn park(&mut self, phase: SlavePhase, ops: Vec<Op>) -> (step: Step<SlaveReply>)
        ensures
            slave_yields(step, final(self)@, old(self)@.park(phase, ops@)),
    {
        self.state.phase = phase;
        Step { ops, request: pending_request(phase) }
    }

    fn finish(&mut self, ops: Vec<Op>, result: Result<SlaveReply, Error>) -> (step: Step<
        SlaveReply,
    >)
        ensures
            slave_yields(step, final(self)@, old(self)@.finish(ops@, result)),
    {
        self.state.phase = SlavePhase::Idle;
        Step { ops, request: Request::Finish(result) }
    }

    /// The commands that bring the peripheral up as a slave for a kernel
    /// clock and a bus rate, and set its own addresses.
    pub fn init(&mut self, i2cclk: Hertz, freq: Hertz, config: SlaveConfig) -> (ops: Vec<Op>)
        requires
            Timings::accepts_spec(i2cclk.0, freq.0),
        ensures
            ops@ == slave_init_ops(Timings::spec_new(i2cclk.0, freq.0), config),
            final(self)@ == old(self)@,
    {
        let timings = Timings::new(i2cclk, freq);
        let mut ops: Vec<Op> = Vec::new();
        ops.push(
            Op::ModifyCr1(Cr1Update { pe: Some(false), anfoff: Some(false), ..Cr1Update::keep() }),
        );
        ops.push(slave_timing_command(timings));
        ops.push(
            Op::ModifyCr1(
                Cr1Update {
                    nostretch: Some(false),
                    gcen: Some(config.general_call),
                    sbc: Some(true),
                    pe: Some(true),
                    ..Cr1Update::keep()
                },
            ),
        );
        let mut addresses = self.reconfigure_addresses(config.addr);
        ops.append(&mut addresses);
        assert(ops@ =~= slave_init_ops(timings, config));
        ops
    }

    /// The commands that set the own addresses anew: one register write per
    /// slot in use, each with the slot enabled.
    pub fn reconfigure_addresses(&mut self, addresses: OwnAddresses) -> (ops: Vec<Op>)
        ensures
            ops@ == address_ops(addresses),
            final(self)@ == old(self)@,
    {
        let mut ops: Vec<Op> = Vec::new();
        match addresses {
            OwnAddresses::OA1(oa1) => {
                ops.push(Op::WriteOar1(oa1));
            },
            OwnAddresses::OA2(oa2) => {
                ops.push(Op::WriteOar2(oa2));
            },
            OwnAddresses::Both { oa1, oa2 } => {
                ops.push(Op::WriteOar1(oa1));
                ops.push(Op::WriteOar2(oa2));
            },
        }
        assert(ops@ =~= address_ops(addresses));
        ops
    }

    /// The command that sets the timing register for another bus rate.
    pub fn set_config(&self, i2cclk: Hertz, config: &Hertz) -> (op: Op)
        requires
            Timings::accepts_spec(i2cclk.0, config.0),
        ensures
            op == slave_timing_op(Timings::spec_new(i2cclk.0, config.0)),
    {
        slave_timing_command(Timings::new(i2cclk, *config))
    }

    /// Begins to listen for an address match.
    pub fn listen(&mut self) -> (step: Step<SlaveReply>)
        ensures
            slave_yields(step, final(self)@, Slave::listen()),
    {
        self.state = Slave { phase: SlavePhase::Idle, len: 0 };
        self.park(SlavePhase::Listening, one(listen_command()))
    }

    /// Begins to receive into a buffer of `len` bytes, after a match that
    /// asked for it.
    pub fn respond_to_receive(&mut self, len: usize) -> (step: Step<SlaveReply>)
        ensures
            slave_yields(step, final(self)@, Slave::respond_to_receive(len)),
    {
        self.state = Slave { phase: SlavePhase::Idle, len };
        let mut ops: Vec<Op> = Vec::new();
        ops.push(receive_enables_command(true));
        ops.push(Op::StartDmaRead { len });
        ops.push(Op::WriteIcr(Flag::Addr));
        assert(ops@ =~= Slave::respond_to_receive(len).ops);
        self.park(SlavePhase::Receiving, ops)
    }

    /// Begins to send a buffer of `len` bytes, after a match that asked for
    /// it.
    pub fn respond_to_send(&mut self, len: usize) -> (step: Step<SlaveReply>)
        ensures
            slave_yields(step, final(self)@, Slave::respond_to_send(len)),
    {
        self.state = Slave { phase: SlavePhase::Idle, len };
        let mut ops: Vec<Op> = Vec::new();
        ops.push(count_command(len));
        ops.push(send_enables_command(true));
        ops.push(Op::StartDmaWrite { buffer: 0, len });
        ops.push(Op::WriteIcr(Flag::Addr));
        ops.push(nack_command(false));
        assert(ops@ =~= Slave::respond_to_send(len).ops);
        self.park(SlavePhase::Sending, ops)
    }

    fn matched(&mut self, status: Status) -> (step: Step<SlaveReply>)
        ensures
            slave_yields(step, final(self)@, old(self)@.matched(status)),
    {
        if !status.addr {
            self.park(SlavePhase::ListenSuspended, Vec::new())
        } else {
            match status.dir {
                Direction::Write => self.park(
                    SlavePhase::Matching(CommandKind::SlaveReceive),
                    one(Op::WriteIcr(Flag::Addr)),
                ),
                Direction::Read => self.park(
                    SlavePhase::Matching(CommandKind::SlaveSend),
                    Vec::new(),
                ),
            }
        }
    }

    /// Takes the answer to the request that stands and goes on to the next
    /// one. An answer of another kind changes nothing, and the request is
    /// handed out again.
    pub fn advance(&mut self, input: Input) -> (step: Step<SlaveReply>)
        ensures
            slave_yields(step, final(self)@, old(self)@.advance(input)),
    {
        let phase = self.state.phase;
        match (phase, input) {
            (SlavePhase::Listening, Input::Word(word)) => self.matched(Status::decode(word)),
            (SlavePhase::ListenSuspended, Input::Woken) => self.park(
                SlavePhase::Listening,
                Vec::new(),
            ),
            (SlavePhase::Matching(kind), Input::Word(word)) => {
                let code = Status::decode(word).addcode;
                if is_ten_bit_header(code) {
                    self.park(SlavePhase::LowByte(kind, code), Vec::new())
                } else {
                    self.finish(
                        Vec::new(),
                        Ok(SlaveReply::Command(Command { kind, address: OwnAddress::SevenBit(code) })),
                    )
                }
            },
            (SlavePhase::LowByte(kind, code), Input::Word(word)) => {
                if Status::decode(word).rxne {
                    self.park(SlavePhase::LowByteData(kind, code), Vec::new())
                } else {
                    self.park(SlavePhase::LowByteDeadline(kind, code), Vec::new())
                }
            },
            (SlavePhase::LowByteDeadline(kind, code), Input::Expired(false)) => self.park(
                SlavePhase::LowByte(kind, code),
                Vec::new(),
            ),
            (SlavePhase::LowByteDeadline(_, _), Input::Expired(true)) => self.finish(
                Vec::new(),
                Err(Error::Timeout),
            ),
            (SlavePhase::LowByteData(kind, code), Input::Word(word)) => {
                let address = combine_ten_bit(code, decode_data(word));
                self.finish(
                    Vec::new(),
                    Ok(SlaveReply::Command(Command { kind, address: OwnAddress::TenBit(address) })),
                )
            },
            (SlavePhase::Receiving, Input::Word(word)) => {
                if Status::decode(word).stopf {
                    self.park(SlavePhase::ReceiveCount, one(Op::WriteIcr(Flag::Stop)))
                } else {
                    self.park(SlavePhase::ReceiveSuspended, Vec::new())
                }
            },
            (SlavePhase::ReceiveSuspended, Input::Woken) => self.park(
                SlavePhase::Receiving,
                Vec::new(),
            ),
            (SlavePhase::ReceiveSuspended, Input::Expired(true)) => self.finish(
                one(receive_enables_command(false)),
                Err(Error::Timeout),
            ),
            (SlavePhase::ReceiveCount, Input::Remaining(remaining)) => {
                let size: usize = if remaining <= self.state.len {
                    self.state.len - remaining
                } else {
                    0
                };
                self.park(SlavePhase::ReceiveDrain(size), one(Op::StopDma))
            },
            (SlavePhase::ReceiveDrain(size), Input::DmaDone) => {
                let mut ops: Vec<Op> = Vec::new();
                ops.push(receive_enables_command(false));
                ops.push(listen_command());
                assert(ops@ =~= seq![receive_enables(false), listen_op()]);
                self.park(SlavePhase::Turnaround(size), ops)
            },
            (SlavePhase::ReceiveDrain(_), Input::Expired(true)) => self.finish(
                one(receive_enables_command(false)),
                Err(Error::Timeout),
            ),
            (SlavePhase::Turnaround(size), Input::Word(word)) => {
                let status = Status::decode(word);
                if !status.addr {
                    self.park(SlavePhase::TurnaroundSuspended(size), Vec::new())
                } else {
                    match status.dir {
                        Direction::Read => self.finish(
                            Vec::new(),
                            Ok(SlaveReply::Received(ReceiveStatus::SendRequested(size))),
                        ),
                        Direction::Write => self.finish(
                            Vec::new(),
                            Ok(SlaveReply::Received(ReceiveStatus::Done(size))),
                        ),
                    }
                }
            },
            (SlavePhase::TurnaroundSuspended(size), Input::Woken) => self.park(
                SlavePhase::Turnaround(size),
                Vec::new(),
            ),
            (SlavePhase::TurnaroundSuspended(size), Input::Expired(true)) => self.finish(
                Vec::new(),
                Ok(SlaveReply::Received(ReceiveStatus::Done(size))),
            ),
            (SlavePhase::Sending, Input::Word(word)) => {
                if Status::decode(word).stopf {
                    self.park(SlavePhase::SendCount, one(Op::WriteIcr(Flag::Stop)))
                } else {
                    self.park(SlavePhase::SendProbe, Vec::new())
                }
            },
            (SlavePhase::SendProbe, Input::DmaReady(true)) => self.park(
                SlavePhase::SendDrain(SendStatus::MoreBytesRequested),
                one(nack_command(true)),
            ),
            (SlavePhase::SendProbe, Input::DmaReady(false)) => self.park(
                SlavePhase::SendSuspended,
                Vec::new(),
            ),
            (SlavePhase::SendSuspended, Input::Woken) => self.park(SlavePhase::Sending, Vec::new()),
            (SlavePhase::SendSuspended, Input::Expired(true)) => self.finish(
                one(send_enables_command(false)),
                Err(Error::Timeout),
            ),
            (SlavePhase::SendCount, Input::Remaining(remaining)) => {
                if remaining > 0 {
                    self.park(
                        SlavePhase::SendDrain(SendStatus::LeftoverBytes(remaining)),
                        one(Op::StopDma),
                    )
                } else {
                    self.park(SlavePhase::SendDrain(SendStatus::Done), Vec::new())
                }
            },
            (SlavePhase::SendDrain(status), Input::DmaDone) => self.finish(
                one(send_enables_command(false)),
                Ok(SlaveReply::Sent(status)),
            ),
            (SlavePhase::SendDrain(_), Input::Expired(true)) => self.finish(
                one(send_enables_command(false)),
                Err(Error::Timeout),
            ),
            _ => self.park(phase, Vec::new()),
        }
    }

    /// Abandons the operation under way. The command handed out switches
    /// off what the operation enabled for the DMA engine; the bus is left as
    /// it is.
    pub fn cancel(&mut self) -> (ops: Vec<Op>)
        ensures
            ops@ == old(self)@.cleanup(),
            final(self)@ == (Slave { phase: SlavePhase::Idle, ..old(self)@ }),
    {
        let ops = match self.state.phase {
            SlavePhase::Receiving
            | SlavePhase::ReceiveSuspended
            | SlavePhase::ReceiveCount
            | SlavePhase::ReceiveDrain(_) => one(receive_enables_command(false)),
            SlavePhase::Sending
            | SlavePhase::SendProbe
            | SlavePhase::SendSuspended
            | SlavePhase::SendCount
            | SlavePhase::SendDrain(_) => one(send_enables_command(false)),
            _ => Vec::new(),
        };
        self.state.phase = SlavePhase::Idle;
        ops
    }
}

fn slave_timing_command(timings: Timings) -> (op: Op)
    ensures
        op == slave_timing_op(timings),
{
    Op::WriteTimingr(
        TimingWrite {
            presc: timings.prescale,
            periods: None,
            sdadel: timings.sdadel,
            scldel: timings.scldel,
        },
    )
}

} // verus!
