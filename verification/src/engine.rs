//! The alphabet between the state machines and whoever owns the hardware:
//! commands, requests and their answers.
use vstd::prelude::*;
use crate::regs::{
    flush_word, flush_word_spec, own_address_word, own_address_word_spec, second_address_word,
    second_address_word_spec, transmit_word, transmit_word_spec, Cr1Update, Cr2Update, Flag,
    TimingWrite,
};
use crate::types::{Error, OwnAddress, OA2};

verus! {

/// A register of the peripheral.
#[derive(Clone, Copy, Debug, PartialEq, Eq)]
pub enum Register {
    Cr1,
    Cr2,
    Oar1,
    Oar2,
    Timingr,
    Isr,
    Icr,
    Txdr,
}

/// A command: something to do to the hardware that yields no answer.
#[derive(Clone, Copy, Debug, PartialEq, Eq)]
pub enum Op {
    /// Read control register 1, apply the update, write it back.
    ModifyCr1(Cr1Update),
    /// Read control register 2, apply the update, write it back.
    ModifyCr2(Cr2Update),
    /// Write control register 2 with the update applied to zero.
    WriteCr2(Cr2Update),
    /// Read the status register, set its transmit-empty bit, write it back.
    FlushTransmit,
    /// Write the clear bit of one flag to the interrupt clear register.
    WriteIcr(Flag),
    /// Write a data byte to the transmit register.
    WriteTxdr(u8),
    /// Write the timing register.
    WriteTimingr(TimingWrite),
    /// Write own address register 1.
    WriteOar1(OwnAddress),
    /// Write own address register 2.
    WriteOar2(OA2),
    /// Start a DMA transfer of `len` bytes from the receive register into
    /// the caller's buffer.
    StartDmaRead { len: usize },
    /// Start a DMA transfer of the caller's buffer number `buffer`, `len`
    /// bytes long, into the transmit register.
    StartDmaWrite { buffer: usize, len: usize },
    /// Ask the running DMA transfer to stop early.
    StopDma,
}

impl Op {
    /// The register a command goes to, if it goes to one.
    pub open spec fn register_spec(self) -> Option<Register> {
        match self {
            Op::ModifyCr1(_) => Some(Register::Cr1),
            Op::ModifyCr2(_) => Some(Register::Cr2),
            Op::WriteCr2(_) => Some(Register::Cr2),
            Op::FlushTransmit => Some(Register::Isr),
            Op::WriteIcr(_) => Some(Register::Icr),
            Op::WriteTxdr(_) => Some(Register::Txdr),
            Op::WriteTimingr(_) => Some(Register::Timingr),
            Op::WriteOar1(_) => Some(Register::Oar1),
            Op::WriteOar2(_) => Some(Register::Oar2),
            Op::StartDmaRead { .. } => None,
            Op::StartDmaWrite { .. } => None,
            Op::StopDma => None,
        }
    }

    /// Whether the register is read before it is written.
    pub open spec fn modifies_spec(self) -> bool {
        self is ModifyCr1 || self is ModifyCr2 || self is FlushTransmit
    }

    /// The word that ends up in the register, `current` being what a
    /// read-modify-write command found there.
    pub open spec fn word_spec(self, current: u32) -> u32 {
        match self {
            Op::ModifyCr1(update) => update.apply_spec(current),
            Op::ModifyCr2(update) => update.apply_spec(current),
            Op::WriteCr2(update) => update.apply_spec(0),
            Op::FlushTransmit => flush_word_spec(current),
            Op::WriteIcr(flag) => flag.clear_word_spec(),
            Op::WriteTxdr(byte) => transmit_word_spec(byte),
            Op::WriteTimingr(timing) => timing.word_spec(),
            Op::WriteOar1(oa1) => own_address_word_spec(oa1),
            Op::WriteOar2(oa2) => second_address_word_spec(oa2),
            Op::StartDmaRead { .. } => current,
            Op::StartDmaWrite { .. } => current,
            Op::StopDma => current,
        }
    }

    /// Names the register a command goes to; `None` for a DMA command.
    pub fn register(&self) -> (r: Option<Register>)
        ensures
            r == self.register_spec(),
    {
        match self {
            Op::ModifyCr1(_) => Some(Register::Cr1),
            Op::ModifyCr2(_) => Some(Register::Cr2),
            Op::WriteCr2(_) => Some(Register::Cr2),
            Op::FlushTransmit => Some(Register::Isr),
            Op::WriteIcr(_) => Some(Register::Icr),
            Op::WriteTxdr(_) => Some(Register::Txdr),
            Op::WriteTimingr(_) => Some(Register::Timingr),
            Op::WriteOar1(_) => Some(Register::Oar1),
            Op::WriteOar2(_) => Some(Register::Oar2),
            Op::StartDmaRead { .. } => None,
            Op::StartDmaWrite { .. } => None,
            Op::StopDma => None,
        }
    }

    /// Tells whether the register must be read first.
    pub fn modifies(&self) -> (r: bool)
        ensures
            r == self.modifies_spec(),
    {
        match self {
            Op::ModifyCr1(_) => true,
            Op::ModifyCr2(_) => true,
            Op::FlushTransmit => true,
            _ => false,
        }
    }

    /// Packs the word to write. `current` is the word read from the register
    /// for a command that modifies; it is ignored for one that only writes,
    /// and handed back for a DMA command.
    pub fn word(&self, current: u32) -> (w: u32)
        ensures
            w == self.word_spec(current),
    {
        match self {
            Op::ModifyCr1(update) => update.apply(current),
            Op::ModifyCr2(update) => update.apply(current),
            Op::WriteCr2(update) => update.apply(0),
            Op::FlushTransmit => flush_word(current),
            Op::WriteIcr(flag) => flag.clear_word(),
            Op::WriteTxdr(byte) => transmit_word(*byte),
            Op::WriteTimingr(timing) => timing.word(),
            Op::WriteOar1(oa1) => own_address_word(*oa1),
            Op::WriteOar2(oa2) => second_address_word(*oa2),
            Op::StartDmaRead { .. } => current,
            Op::StartDmaWrite { .. } => current,
            Op::StopDma => current,
        }
    }
}

/// What a machine needs next. Every request but `Finish` and `Idle` is
/// answered with an [`Input`].
#[derive(Debug, PartialEq, Eq)]
pub enum Request<T> {
    /// Read control register 2; answer with `Input::Word`.
    ReadCr2,
    /// Read the status register; answer with `Input::Word`.
    ReadIsr,
    /// Read the receive register; answer with `Input::Word`.
    ReadRxdr,
    /// Tell whether the deadline has passed; answer with `Input::Expired`.
    CheckDeadline,
    /// Wait for the interrupt handler to wake the task; answer with
    /// `Input::Woken`, or with `Input::Expired(true)` once the deadline has
    /// passed.
    Suspend,
    /// Wait for the DMA transfer to complete; answer with `Input::DmaDone`,
    /// or with `Input::Expired(true)` once the deadline has passed.
    AwaitDma,
    /// Tell whether the DMA transfer has completed, without waiting; answer
    /// with `Input::DmaReady`.
    PollDma,
    /// Tell how many items the DMA transfer has left; answer with
    /// `Input::Remaining`.
    DmaRemaining,
    /// The operation is over, with this result.
    Finish(Result<T, Error>),
    /// No operation is under way.
    Idle,
}

/// An answer to a request.
#[derive(Clone, Copy, Debug, PartialEq, Eq)]
pub enum Input {
    /// The word read from the register asked for.
    Word(u32),
    /// Whether the deadline has passed.
    Expired(bool),
    /// The task was woken.
    Woken,
    /// The DMA transfer is complete.
    DmaDone,
    /// Whether the DMA transfer is complete.
    DmaReady(bool),
    /// The count of items the DMA transfer has left.
    Remaining(usize),
}

/// What one step of a machine hands out: commands to carry out in order,
/// then one request.
#[derive(Debug)]
pub struct Step<T> {
    pub ops: Vec<Op>,
    pub request: Request<T>,
}

/// One step in specifications: the machine afterwards, the commands and the
/// request.
pub struct Outcome<S, T> {
    pub state: S,
    pub ops: Seq<Op>,
    pub request: Request<T>,
}

} // verus!
