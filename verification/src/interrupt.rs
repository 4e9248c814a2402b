//! What the interrupt handler decides.
use vstd::prelude::*;
use crate::engine::Op;
use crate::regs::{Cr1Update, Status};

verus! {

/// Whether a status word calls for waking the task: a transfer completed,
/// with or without reload, an address matched, a stop was detected, or data
/// was overrun.
pub open spec fn wakes(status: Status) -> bool {
    status.tcr || status.tc || status.addr || status.stopf || status.ovr
}

/// The interrupt enables that the handler switches off. The flags behind
/// them are only cleared by the woken task, so the interrupts would fire
/// again at once.
pub open spec fn quiet_op() -> Op {
    Op::ModifyCr1(
        Cr1Update {
            tcie: Some(false),
            addrie: Some(false),
            stopie: Some(false),
            ..Cr1Update::keep()
        },
    )
}

/// The handler's part: from the status word, whether to wake the task, and
/// the command that silences the interrupt. The handler clears no flag and
/// moves no data.
pub fn on_interrupt(isr: u32) -> (decision: (bool, Op))
    ensures
        decision.0 == wakes(Status::of(isr)),
        decision.1 == quiet_op(),
{
    let status = Status::decode(isr);
    let wake = status.tcr || status.tc || status.addr || status.stopf || status.ovr;
    (
        wake,
        Op::ModifyCr1(
            Cr1Update {
                tcie: Some(false),
                addrie: Some(false),
                stopie: Some(false),
                ..Cr1Update::keep()
            },
        ),
    )
}

} // verus!
