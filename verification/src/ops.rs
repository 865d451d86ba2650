//! The action vocabulary the driver core emits and the hardware glue performs.

use vstd::prelude::*;

verus! {

/// Identity of one of the two statically allocated frame buffers. These are
/// the only buffer identities that ever exist.
#[derive(Clone, Copy, PartialEq, Eq, Structural, Debug)]
pub enum BufferId {
    A,
    B,
}

/// The buffer identity other than `id`.
pub open spec fn other(id: BufferId) -> BufferId {
    match id {
        BufferId::A => BufferId::B,
        BufferId::B => BufferId::A,
    }
}

/// Executable counterpart of [`other`].
pub fn other_buffer(id: BufferId) -> (r: BufferId)
    ensures
        r == other(id),
{
    match id {
        BufferId::A => BufferId::B,
        BufferId::B => BufferId::A,
    }
}

/// One elementary action on the display hardware. The driver core emits
/// scripts of these; the glue that owns the bus, the three control pins, the
/// delay source and the DMA channel executes them in order.
#[derive(Clone, Copy, PartialEq, Eq, Structural, Debug)]
pub enum BusOp {
    /// Drive chip-select low: the controller listens.
    CsLow,
    /// Drive chip-select high: the transaction is closed.
    CsHigh,
    /// Drive the data/command line low: following bus bytes are an opcode.
    DcLow,
    /// Drive the data/command line high: following bus bytes are payload.
    DcHigh,
    /// Drive the hardware-reset line low.
    RstLow,
    /// Drive the hardware-reset line high.
    RstHigh,
    /// Block for at least the given number of milliseconds.
    DelayMs(u32),
    /// Block for at least the given number of nanoseconds.
    DelayNs(u32),
    /// Write one byte over the bus, best-effort: a bus fault is discarded.
    Write(u8),
    /// Synchronously transmit the whole named frame buffer over the bus.
    WriteBuffer(BufferId),
    /// Start a DMA transfer carrying the named frame buffer.
    DmaStart(BufferId),
    /// Block until the in-flight DMA transfer retires.
    DmaWait,
}

} // verus!
