//! Command/data framing for the ST7789 controller.
//!
//! Every send is one chip-select-gated transaction: the data/command line is
//! set first, chip-select then asserts, the bytes go out, and chip-select
//! releases, with nanosecond-scale settle delays around the line transitions.

use vstd::prelude::*;

verus! {

use crate::ops::{BufferId, BusOp};

/// Software reset opcode.
pub const SWRESET: u8 = 0x01;

/// Sleep-out opcode.
pub const SLPOUT: u8 = 0x11;

/// Display-inversion-on opcode.
pub const INVON: u8 = 0x21;

/// Display-on opcode.
pub const DISPON: u8 = 0x29;

/// Column-address-window opcode.
pub const CASET: u8 = 0x2A;

/// Row-address-window opcode.
pub const RASET: u8 = 0x2B;

/// Memory-write opcode.
pub const RAMWR: u8 = 0x2C;

/// Memory-access / orientation opcode.
pub const MADCTL: u8 = 0x36;

/// Pixel-format opcode.
pub const COLMOD: u8 = 0x3A;

/// Positive gamma table opcode.
pub const PVGAMCTRL: u8 = 0xE0;

/// Negative gamma table opcode.
pub const NVGAMCTRL: u8 = 0xE1;

/// Settle delay, in nanoseconds, around chip-select and data/command
/// transitions — a controller timing requirement.
pub const SETTLE_NS: u32 = 100;

/// The actions that frame one opcode byte as a command transaction.
pub open spec fn command_frame(opcode: u8) -> Seq<BusOp> {
    seq![
        BusOp::DcLow,
        BusOp::CsLow,
        BusOp::DelayNs(SETTLE_NS),
        BusOp::Write(opcode),
        BusOp::CsHigh,
        BusOp::DelayNs(SETTLE_NS),
    ]
}

/// The actions that frame a payload as a data transaction.
pub open spec fn data_frame(payload: Seq<u8>) -> Seq<BusOp> {
    seq![BusOp::DcHigh, BusOp::CsLow, BusOp::DelayNs(SETTLE_NS)]
        + payload.map(|i: int, b: u8| BusOp::Write(b))
        + seq![BusOp::CsHigh, BusOp::DelayNs(SETTLE_NS)]
}

/// The actions that frame a whole frame buffer as one data transaction (the
/// synchronous priming write during bring-up).
pub open spec fn buffer_frame(id: BufferId) -> Seq<BusOp> {
    seq![
        BusOp::DcHigh,
        BusOp::CsLow,
        BusOp::DelayNs(SETTLE_NS),
        BusOp::WriteBuffer(id),
        BusOp::CsHigh,
        BusOp::DelayNs(SETTLE_NS),
    ]
}

/// The hardware reset pulse: high, low, high, each level held for its
/// minimum time.
pub open spec fn reset_sequence() -> Seq<BusOp> {
    seq![
        BusOp::RstHigh,
        BusOp::DelayMs(100),
        BusOp::RstLow,
        BusOp::DelayMs(100),
        BusOp::RstHigh,
        BusOp::DelayMs(120),
    ]
}

/// The actions that open a RAM-write frame for a following bulk transfer:
/// the memory-write opcode goes out in command mode, then the data/command
/// line flips to data mode while chip-select stays asserted, so the transfer
/// engine can stream pixel bytes.
pub open spec fn start_frame_ops() -> Seq<BusOp> {
    seq![
        BusOp::DcLow,
        BusOp::CsLow,
        BusOp::DelayNs(SETTLE_NS),
        BusOp::Write(RAMWR),
        BusOp::DelayNs(SETTLE_NS),
        BusOp::DcHigh,
        BusOp::DelayMs(1),
    ]
}

/// Append one action to a script.
pub fn push_op(out: &mut Vec<BusOp>, op: BusOp)
    ensures
        final(out)@ == old(out)@ + seq![op],
{
    out.push(op);
    proof {
        assert(out@ =~= old(out)@ + seq![op]);
    }
}

/// Append the command transaction for one opcode.
pub fn write_command(out: &mut Vec<BusOp>, opcode: u8)
    ensures
        final(out)@ == old(out)@ + command_frame(opcode),
{
    out.push(BusOp::DcLow);
    out.push(BusOp::CsLow);
    out.push(BusOp::DelayNs(SETTLE_NS));
    out.push(BusOp::Write(opcode));
    out.push(BusOp::CsHigh);
    out.push(BusOp::DelayNs(SETTLE_NS));
    proof {
        assert(out@ =~= old(out)@ + command_frame(opcode));
    }
}

/// Append the data transaction for a payload.
pub fn write_data(out: &mut Vec<BusOp>, payload: &Vec<u8>)
    ensures
        final(out)@ == old(out)@ + data_frame(payload@),
{
    out.push(BusOp::DcHigh);
    out.push(BusOp::CsLow);
    out.push(BusOp::DelayNs(SETTLE_NS));
    let ghost opened = old(out)@ + seq![BusOp::DcHigh, BusOp::CsLow, BusOp::DelayNs(SETTLE_NS)];
    proof {
        assert(out@ =~= opened);
    }
    let mut i: usize = 0;
    while i < payload.len()
        invariant
            i <= payload@.len(),
            out@ == opened + payload@.subrange(0, i as int).map(|j: int, b: u8| BusOp::Write(b)),
        decreases payload@.len() - i,
    {
        out.push(BusOp::Write(payload[i]));
        proof {
            assert(payload@.subrange(0, i + 1 as int) =~= payload@.subrange(0, i as int).push(
                payload@[i as int],
            ));
            assert(out@ =~= opened + payload@.subrange(0, i + 1 as int).map(
                |j: int, b: u8| BusOp::Write(b),
            ));
        }
        i = i + 1;
    }
    out.push(BusOp::CsHigh);
    out.push(BusOp::DelayNs(SETTLE_NS));
    proof {
        assert(payload@.subrange(0, payload@.len() as int) =~= payload@);
        assert(out@ =~= old(out)@ + data_frame(payload@));
    }
}

/// Append the data transaction that transmits a whole frame buffer.
pub fn write_buffer(out: &mut Vec<BusOp>, id: BufferId)
    ensures
        final(out)@ == old(out)@ + buffer_frame(id),
{
    out.push(BusOp::DcHigh);
    out.push(BusOp::CsLow);
    out.push(BusOp::DelayNs(SETTLE_NS));
    out.push(BusOp::WriteBuffer(id));
    out.push(BusOp::CsHigh);
    out.push(BusOp::DelayNs(SETTLE_NS));
    proof {
        assert(out@ =~= old(out)@ + buffer_frame(id));
    }
}

/// Append the hardware reset pulse.
pub fn push_reset(out: &mut Vec<BusOp>)
    ensures
        final(out)@ == old(out)@ + reset_sequence(),
{
    out.push(BusOp::RstHigh);
    out.push(BusOp::DelayMs(100));
    out.push(BusOp::RstLow);
    out.push(BusOp::DelayMs(100));
    out.push(BusOp::RstHigh);
    out.push(BusOp::DelayMs(120));
    proof {
        assert(out@ =~= old(out)@ + reset_sequence());
    }
}

/// Append the RAM-write framing that precedes a bulk pixel transfer.
pub fn start_frame(out: &mut Vec<BusOp>)
    ensures
        final(out)@ == old(out)@ + start_frame_ops(),
{
    out.push(BusOp::DcLow);
    out.push(BusOp::CsLow);
    out.push(BusOp::DelayNs(SETTLE_NS));
    out.push(BusOp::Write(RAMWR));
    out.push(BusOp::DelayNs(SETTLE_NS));
    out.push(BusOp::DcHigh);
    out.push(BusOp::DelayMs(1));
    proof {
        assert(out@ =~= old(out)@ + start_frame_ops());
    }
}

/// An action allowed inside an open transaction: byte or buffer writes and
/// settle delays — no chip-select, data/command or reset transition.
pub open spec fn transfer_op(op: BusOp) -> bool {
    ||| op is Write
    ||| op is WriteBuffer
    ||| op is DelayNs
    ||| op is DelayMs
}

/// One well-framed chip-select-gated send: the data/command level is chosen
/// before chip-select asserts, chip-select releases exactly once at the end,
/// and no control-line transition happens while the transaction is open.
pub open spec fn well_framed(ops: Seq<BusOp>) -> bool {
    &&& 4 <= ops.len()
    &&& (ops[0] == BusOp::DcLow || ops[0] == BusOp::DcHigh)
    &&& ops[1] == BusOp::CsLow
    &&& ops[ops.len() - 2] == BusOp::CsHigh
    &&& ops[ops.len() - 1] == BusOp::DelayNs(SETTLE_NS)
    &&& forall|k: int| 2 <= k < ops.len() - 2 ==> #[trigger] transfer_op(ops[k])
}

/// Every command frame is well framed, whatever the opcode: the
/// data/command line is set before chip-select asserts, and chip-select
/// transitions low then high around exactly one transaction.
pub proof fn lemma_command_frame_well_framed(opcode: u8)
    ensures
        well_framed(command_frame(opcode)),
{
}

/// Every data frame is well framed, whatever the payload.
pub proof fn lemma_data_frame_well_framed(payload: Seq<u8>)
    ensures
        well_framed(data_frame(payload)),
{
    let ops = data_frame(payload);
    let head = seq![BusOp::DcHigh, BusOp::CsLow, BusOp::DelayNs(SETTLE_NS)];
    let mid = payload.map(|i: int, b: u8| BusOp::Write(b));
    let tail = seq![BusOp::CsHigh, BusOp::DelayNs(SETTLE_NS)];
    assert(ops.len() == 5 + payload.len());
    assert(ops[ops.len() - 2] == tail[0]);
    assert(ops[ops.len() - 1] == tail[1]);
    assert forall|k: int| 2 <= k < ops.len() - 2 implies #[trigger] transfer_op(ops[k]) by {
        if k == 2 {
            assert(ops[k] == head[2]);
        } else {
            assert(ops[k] == mid[k - 3]);
            assert(mid[k - 3] == BusOp::Write(payload[k - 3]));
        }
    }
}

/// The buffer-priming frame is well framed.
pub proof fn lemma_buffer_frame_well_framed(id: BufferId)
    ensures
        well_framed(buffer_frame(id)),
{
}

/// The four-byte address-window payload spanning columns or rows `[0, end]`:
/// start 0 big-endian, then `end` big-endian — high byte before low byte.
pub open spec fn window_payload_spec(end: u16) -> Seq<u8> {
    seq![0u8, 0u8, (end / 256) as u8, (end % 256) as u8]
}

/// Build the address-window payload for `[0, end]`.
pub fn window_payload(end: u16) -> (r: Vec<u8>)
    ensures
        r@ == window_payload_spec(end),
{
    let mut r: Vec<u8> = Vec::new();
    r.push(0u8);
    r.push(0u8);
    proof {
        assert(end >> 8 == end / 256 && end & 0xFF == end % 256) by (bit_vector);
    }
    r.push((end >> 8) as u8);
    r.push((end & 0xFF) as u8);
    proof {
        assert(r@ =~= window_payload_spec(end));
    }
    r
}

/// The panel's positive gamma calibration table.
pub open spec fn gamma_positive() -> Seq<u8> {
    seq![0xD0u8, 0x08, 0x11, 0x08, 0x0C, 0x15, 0x39, 0x33, 0x50, 0x36, 0x13, 0x14, 0x29, 0x2D]
}

/// The panel's negative gamma calibration table.
pub open spec fn gamma_negative() -> Seq<u8> {
    seq![0xD0u8, 0x08, 0x10, 0x08, 0x06, 0x06, 0x39, 0x44, 0x51, 0x0B, 0x16, 0x14, 0x2F, 0x31]
}

/// Build the positive gamma table.
pub fn gamma_positive_table() -> (r: Vec<u8>)
    ensures
        r@ == gamma_positive(),
{
    let mut r: Vec<u8> = Vec::new();
    r.push(0xD0);
    r.push(0x08);
    r.push(0x11);
    r.push(0x08);
    r.push(0x0C);
    r.push(0x15);
    r.push(0x39);
    r.push(0x33);
    r.push(0x50);
    r.push(0x36);
    r.push(0x13);
    r.push(0x14);
    r.push(0x29);
    r.push(0x2D);
    proof {
        assert(r@ =~= gamma_positive());
    }
    r
}

/// Build the negative gamma table.
pub fn gamma_negative_table() -> (r: Vec<u8>)
    ensures
        r@ == gamma_negative(),
{
    let mut r: Vec<u8> = Vec::new();
    r.push(0xD0);
    r.push(0x08);
    r.push(0x10);
    r.push(0x08);
    r.push(0x06);
    r.push(0x06);
    r.push(0x39);
    r.push(0x44);
    r.push(0x51);
    r.push(0x0B);
    r.push(0x16);
    r.push(0x14);
    r.push(0x2F);
    r.push(0x31);
    proof {
        assert(r@ =~= gamma_negative());
    }
    r
}

} // verus!
