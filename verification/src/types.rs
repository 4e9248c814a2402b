//! Plain data shared by the master and the slave engine.
use vstd::prelude::*;

verus! {

/// What can go wrong on the bus.
#[derive(Clone, Copy, Debug, PartialEq, Eq)]
pub enum Error {
    /// Misplaced START or STOP condition.
    Bus,
    /// Bus ownership was lost to another device.
    Arbitration,
    /// The peer did not acknowledge.
    Nack,
    /// The deadline passed.
    Timeout,
    /// A vectored write without any buffer.
    ZeroLengthTransfer,
}

/// A frequency in hertz.
#[derive(Clone, Copy, Debug, PartialEq, Eq)]
pub struct Hertz(pub u32);

/// Transfer direction as the bus sees it.
#[derive(Clone, Copy, Debug, PartialEq, Eq)]
pub enum Direction {
    /// The master transmits, a slave receives.
    Write,
    /// The master receives, a slave transmits.
    Read,
}

/// Who ends a transfer once the programmed bytes have gone.
#[derive(Clone, Copy, Debug, PartialEq, Eq)]
pub enum Stop {
    /// The driver writes the stop bit itself.
    Software,
    /// The peripheral sends STOP by itself.
    Automatic,
}

impl Stop {
    /// Whether the peripheral ends the transfer by itself.
    pub fn autoend(&self) -> (automatic: bool)
        ensures
            automatic == (*self is Automatic),
    {
        match self {
            Stop::Software => false,
            Stop::Automatic => true,
        }
    }
}

/// Address width.
#[derive(Clone, Copy, Debug, PartialEq, Eq)]
pub enum AddressMode {
    Bit7,
    Bit10,
}

/// An address this device answers to.
#[derive(Clone, Copy, Debug, PartialEq, Eq)]
pub enum OwnAddress {
    SevenBit(u8),
    TenBit(u16),
}

/// How many low address bits the second match slot ignores.
#[derive(Clone, Copy, Debug, PartialEq, Eq)]
pub enum AddrMask {
    NoMask,
    Mask1,
    Mask2,
    Mask3,
    Mask4,
    Mask5,
    Mask6,
    Mask7,
}

/// Second own address, seven bits wide, with its mask.
#[derive(Clone, Copy, Debug, PartialEq, Eq)]
pub struct OA2 {
    pub addr: u8,
    pub mask: AddrMask,
}

/// Which match slots are in use.
#[derive(Clone, Copy, Debug, PartialEq, Eq)]
pub enum OwnAddresses {
    OA1(OwnAddress),
    OA2(OA2),
    Both { oa1: OwnAddress, oa2: OA2 },
}

/// Slave configuration.
#[derive(Clone, Copy, Debug, PartialEq, Eq)]
pub struct SlaveConfig {
    pub addr: OwnAddresses,
    pub general_call: bool,
}

/// What the master asks of the slave.
#[derive(Clone, Copy, Debug, PartialEq, Eq)]
pub enum CommandKind {
    /// The master writes, the slave is to receive.
    SlaveReceive,
    /// The master reads, the slave is to send.
    SlaveSend,
}

/// An address match, as `listen` reports it.
#[derive(Clone, Copy, Debug, PartialEq, Eq)]
pub struct Command {
    pub kind: CommandKind,
    pub address: OwnAddress,
}

/// How a slave reception ended; both carry the number of bytes received.
#[derive(Clone, Copy, Debug, PartialEq, Eq)]
pub enum ReceiveStatus {
    /// The master turned the bus around and now reads.
    SendRequested(usize),
    /// The transaction is over.
    Done(usize),
}

/// How a slave transmission ended.
#[derive(Clone, Copy, Debug, PartialEq, Eq)]
pub enum SendStatus {
    /// The master took every byte and stopped.
    Done,
    /// The master stopped with this many bytes unsent.
    LeftoverBytes(usize),
    /// The buffer ran out and the master still clocks.
    MoreBytesRequested,
}

} // verus!
