//! The initialization sequencer and the double-buffered transfer engine.
//!
//! The driver owns the protocol state — which of the two frame buffers is in
//! flight on the DMA engine — and emits scripts of [`BusOp`] actions for the
//! hardware glue to execute. Holding the in-flight buffer in an `Option`
//! makes a second simultaneous transfer unrepresentable, and handing buffers
//! to and from [`WaveshareST7789Display::swap_buffers`] by value makes it
//! structurally impossible for the caller to keep a usable handle on a
//! buffer the engine is transferring.

use vstd::prelude::*;

verus! {

use crate::buffer::FrameBuffer;
use crate::framing::{
    buffer_frame, command_frame, data_frame, gamma_negative, gamma_negative_table,
    gamma_positive, gamma_positive_table, push_op, push_reset, reset_sequence, start_frame,
    start_frame_ops, window_payload, window_payload_spec, write_buffer, write_command,
    write_data, CASET, COLMOD, DISPON, INVON, MADCTL, NVGAMCTRL, PVGAMCTRL, RAMWR, RASET,
    SLPOUT, SWRESET,
};
use crate::geometry::{HEIGHT, WIDTH};
use crate::ops::{other, BufferId, BusOp};
use vstd::pervasive::arbitrary;
use vstd::pervasive::unreached;

/// No action in `ops` starts or waits for a DMA transfer.
pub open spec fn dma_free(ops: Seq<BusOp>) -> bool {
    forall|k: int|
        0 <= k < ops.len() ==> !((#[trigger] ops[k]) is DmaStart) && !(ops[k] is DmaWait)
}

/// Concatenation preserves `dma_free`.
pub proof fn lemma_dma_free_concat(a: Seq<BusOp>, b: Seq<BusOp>)
    requires
        dma_free(a),
        dma_free(b),
    ensures
        dma_free(a + b),
{
    assert forall|k: int|
        0 <= k < (a + b).len() implies !(((a + b)[k]) is DmaStart) && !((a + b)[k] is DmaWait) by {
        if k < a.len() {
            assert((a + b)[k] == a[k]);
        } else {
            assert((a + b)[k] == b[k - a.len()]);
        }
    }
}

/// A command frame neither starts nor waits for a transfer.
pub proof fn lemma_command_frame_dma_free(opcode: u8)
    ensures
        dma_free(command_frame(opcode)),
{
}

/// A data frame neither starts nor waits for a transfer.
pub proof fn lemma_data_frame_dma_free(payload: Seq<u8>)
    ensures
        dma_free(data_frame(payload)),
{
    let ops = data_frame(payload);
    let head = seq![BusOp::DcHigh, BusOp::CsLow, BusOp::DelayNs(crate::framing::SETTLE_NS)];
    let mid = payload.map(|i: int, b: u8| BusOp::Write(b));
    assert forall|k: int|
        0 <= k < ops.len() implies !((#[trigger] ops[k]) is DmaStart) && !(ops[k] is DmaWait) by {
        if k < 3 {
            assert(ops[k] == head[k]);
        } else if k < 3 + payload.len() {
            assert(ops[k] == mid[k - 3]);
            assert(mid[k - 3] == BusOp::Write(payload[k - 3]));
        } else {
            assert(ops[k] == seq![
                BusOp::CsHigh,
                BusOp::DelayNs(crate::framing::SETTLE_NS),
            ][k - 3 - payload.len()]);
        }
    }
}

/// The fixed bring-up script up to, but not including, arming the first
/// transfer: chip-select released, hardware reset, software reset,
/// sleep-out, pixel format, orientation, inversion, the full-panel address
/// window, both gamma tables, the synchronous priming write of buffer A,
/// display-on, and the re-opened RAM-write framing. Each delay is a hard
/// minimum of the controller.
pub open spec fn init_preamble() -> Seq<BusOp> {
    seq![BusOp::CsHigh] + reset_sequence() + command_frame(SWRESET) + seq![BusOp::DelayMs(150)]
        + command_frame(SLPOUT) + seq![BusOp::DelayMs(150)] + command_frame(COLMOD) + data_frame(
        seq![0x06u8],
    ) + command_frame(MADCTL) + data_frame(seq![0x00u8]) + command_frame(INVON) + command_frame(
        CASET,
    ) + data_frame(window_payload_spec((WIDTH - 1) as u16)) + command_frame(RASET) + data_frame(
        window_payload_spec((HEIGHT - 1) as u16),
    ) + command_frame(PVGAMCTRL) + data_frame(gamma_positive()) + command_frame(NVGAMCTRL)
        + data_frame(gamma_negative()) + command_frame(RAMWR) + seq![BusOp::DelayMs(1)]
        + buffer_frame(BufferId::A) + seq![BusOp::DelayMs(1)] + command_frame(DISPON) + seq![
        BusOp::DelayMs(120),
    ] + start_frame_ops()
}

/// The whole bring-up script: the preamble, then the one action that starts
/// the first transfer, carrying buffer A.
pub open spec fn init_script() -> Seq<BusOp> {
    init_preamble() + seq![BusOp::DmaStart(BufferId::A)]
}

/// The script one swap executes: retire the outstanding transfer, close its
/// chip-select transaction, re-open the RAM-write framing, and start the
/// next transfer carrying the caller's buffer.
pub open spec fn swap_script(ready: BufferId) -> Seq<BusOp> {
    seq![BusOp::DmaWait] + seq![BusOp::CsHigh] + seq![BusOp::DelayMs(1)] + start_frame_ops()
        + seq![BusOp::DmaStart(ready)]
}

/// The bring-up script performs no DMA action before its last step.
pub proof fn lemma_init_preamble_dma_free()
    ensures
        dma_free(init_preamble()),
{
    let p00 = seq![BusOp::CsHigh];
    let p01 = p00 + reset_sequence();
    let p02 = p01 + command_frame(SWRESET);
    let p03 = p02 + seq![BusOp::DelayMs(150)];
    let p04 = p03 + command_frame(SLPOUT);
    let p05 = p04 + seq![BusOp::DelayMs(150)];
    let p06 = p05 + command_frame(COLMOD);
    let p07 = p06 + data_frame(seq![0x06u8]);
    let p08 = p07 + command_frame(MADCTL);
    let p09 = p08 + data_frame(seq![0x00u8]);
    let p10 = p09 + command_frame(INVON);
    let p11 = p10 + command_frame(CASET);
    let p12 = p11 + data_frame(window_payload_spec((WIDTH - 1) as u16));
    let p13 = p12 + command_frame(RASET);
    let p14 = p13 + data_frame(window_payload_spec((HEIGHT - 1) as u16));
    let p15 = p14 + command_frame(PVGAMCTRL);
    let p16 = p15 + data_frame(gamma_positive());
    let p17 = p16 + command_frame(NVGAMCTRL);
    let p18 = p17 + data_frame(gamma_negative());
    let p19 = p18 + command_frame(RAMWR);
    let p20 = p19 + seq![BusOp::DelayMs(1)];
    let p21 = p20 + buffer_frame(BufferId::A);
    let p22 = p21 + seq![BusOp::DelayMs(1)];
    let p23 = p22 + command_frame(DISPON);
    let p24 = p23 + seq![BusOp::DelayMs(120)];
    let p25 = p24 + start_frame_ops();
    assert(dma_free(p00));
    lemma_dma_free_concat(p00, reset_sequence());
    lemma_command_frame_dma_free(SWRESET);
    lemma_dma_free_concat(p01, command_frame(SWRESET));
    assert(dma_free(seq![BusOp::DelayMs(150)]));
    lemma_dma_free_concat(p02, seq![BusOp::DelayMs(150)]);
    lemma_command_frame_dma_free(SLPOUT);
    lemma_dma_free_concat(p03, command_frame(SLPOUT));
    lemma_dma_free_concat(p04, seq![BusOp::DelayMs(150)]);
    lemma_command_frame_dma_free(COLMOD);
    lemma_dma_free_concat(p05, command_frame(COLMOD));
    lemma_data_frame_dma_free(seq![0x06u8]);
    lemma_dma_free_concat(p06, data_frame(seq![0x06u8]));
    lemma_command_frame_dma_free(MADCTL);
    lemma_dma_free_concat(p07, command_frame(MADCTL));
    lemma_data_frame_dma_free(seq![0x00u8]);
    lemma_dma_free_concat(p08, data_frame(seq![0x00u8]));
    lemma_command_frame_dma_free(INVON);
    lemma_dma_free_concat(p09, command_frame(INVON));
    lemma_command_frame_dma_free(CASET);
    lemma_dma_free_concat(p10, command_frame(CASET));
    lemma_data_frame_dma_free(window_payload_spec((WIDTH - 1) as u16));
    lemma_dma_free_concat(p11, data_frame(window_payload_spec((WIDTH - 1) as u16)));
    lemma_command_frame_dma_free(RASET);
    lemma_dma_free_concat(p12, command_frame(RASET));
    lemma_data_frame_dma_free(window_payload_spec((HEIGHT - 1) as u16));
    lemma_dma_free_concat(p13, data_frame(window_payload_spec((HEIGHT - 1) as u16)));
    lemma_command_frame_dma_free(PVGAMCTRL);
    lemma_dma_free_concat(p14, command_frame(PVGAMCTRL));
    lemma_data_frame_dma_free(gamma_positive());
    lemma_dma_free_concat(p15, data_frame(gamma_positive()));
    lemma_command_frame_dma_free(NVGAMCTRL);
    lemma_dma_free_concat(p16, command_frame(NVGAMCTRL));
    lemma_data_frame_dma_free(gamma_negative());
    lemma_dma_free_concat(p17, data_frame(gamma_negative()));
    lemma_command_frame_dma_free(RAMWR);
    lemma_dma_free_concat(p18, command_frame(RAMWR));
    assert(dma_free(seq![BusOp::DelayMs(1)]));
    lemma_dma_free_concat(p19, seq![BusOp::DelayMs(1)]);
    assert(dma_free(buffer_frame(BufferId::A)));
    lemma_dma_free_concat(p20, buffer_frame(BufferId::A));
    lemma_dma_free_concat(p21, seq![BusOp::DelayMs(1)]);
    lemma_command_frame_dma_free(DISPON);
    lemma_dma_free_concat(p22, command_frame(DISPON));
    assert(dma_free(seq![BusOp::DelayMs(120)]));
    lemma_dma_free_concat(p23, seq![BusOp::DelayMs(120)]);
    assert(dma_free(start_frame_ops()));
    lemma_dma_free_concat(p24, start_frame_ops());
    assert(p25 == init_preamble());
}

/// The bring-up script arms exactly one transfer: its very last action is
/// the only DMA start, carrying buffer A, and it never waits for one.
pub proof fn lemma_init_script_single_start()
    ensures
        0 < init_script().len(),
        init_script().last() == BusOp::DmaStart(BufferId::A),
        forall|k: int|
            0 <= k < init_script().len() - 1 ==> !((#[trigger] init_script()[k]) is DmaStart) && !(
            init_script()[k] is DmaWait),
{
    lemma_init_preamble_dma_free();
    assert forall|k: int|
        0 <= k < init_script().len() - 1 implies !((#[trigger] init_script()[k]) is DmaStart)
        && !(init_script()[k] is DmaWait) by {
        assert(init_script()[k] == init_preamble()[k]);
    }
}

/// Between consecutive swaps exactly one wait-for-completion and one
/// start-new-transfer occur, and the wait comes strictly first: the script
/// opens by retiring the outstanding transfer and closes by starting the
/// next one, with no DMA action in between.
pub proof fn lemma_swap_script_single_transfer(ready: BufferId)
    ensures
        0 < swap_script(ready).len(),
        swap_script(ready).first() == BusOp::DmaWait,
        swap_script(ready).last() == BusOp::DmaStart(ready),
        forall|k: int|
            0 < k < swap_script(ready).len() - 1 ==> !((#[trigger] swap_script(ready)[k])
                is DmaStart) && !(swap_script(ready)[k] is DmaWait),
{
    let ops = swap_script(ready);
    assert(ops.len() == 11);
    assert forall|k: int|
        0 < k < ops.len() - 1 implies !((#[trigger] ops[k]) is DmaStart) && !(ops[k] is DmaWait) by {
        if k == 1 {
            assert(ops[k] == BusOp::CsHigh);
        } else if k == 2 {
            assert(ops[k] == BusOp::DelayMs(1));
        } else {
            assert(ops[k] == start_frame_ops()[k - 3]);
        }
    }
}

/// The identity the engine holds after `n` swaps, when it held `first`
/// right after initialization: each swap moves the caller's buffer — always
/// the other one — into flight.
pub open spec fn engine_after(first: BufferId, n: nat) -> BufferId
    decreases n,
{
    if n == 0 {
        first
    } else {
        other(engine_after(first, (n - 1) as nat))
    }
}

/// The identity the n-th swap call returns, counting from 1: the buffer the
/// engine held before that swap retired it.
pub open spec fn returned_after(first: BufferId, n: nat) -> BufferId
    recommends
        1 <= n,
{
    engine_after(first, (n - 1) as nat)
}

/// The identity the caller holds once `n` swaps have completed: the last
/// swap handed the previously in-flight buffer back.
pub open spec fn caller_after(first: BufferId, n: nat) -> BufferId {
    other(engine_after(first, n))
}

/// Ownership alternates: consecutive swap calls never return the same
/// buffer identity twice in a row — and every returned identity is one of
/// the two static buffers, since [`BufferId`] admits no other. This is the
/// trace-level reading of `swap_buffers`' contract, whose every call puts
/// the other buffer in flight and returns the previously in-flight one.
pub proof fn lemma_results_alternate(first: BufferId, n: nat)
    requires
        1 <= n,
    ensures
        returned_after(first, n + 1) == other(returned_after(first, n)),
        returned_after(first, n + 1) != returned_after(first, n),
{
    assert(returned_after(first, n + 1) == other(returned_after(first, n)));
}

/// After any number of swaps the engine-held and the caller-held identities
/// are the two distinct static buffers: the total outstanding buffer count
/// is always exactly two.
pub proof fn lemma_two_buffers_outstanding(first: BufferId, n: nat)
    ensures
        caller_after(first, n) != engine_after(first, n),
        (engine_after(first, n) == BufferId::A && caller_after(first, n) == BufferId::B) || (
        engine_after(first, n) == BufferId::B && caller_after(first, n) == BufferId::A),
{
}

/// Driver for the Waveshare Pico LCD 2 panel with its ST7789 controller:
/// the bring-up sequencer and the double-buffered transfer engine. The
/// hardware handles (bus, control pins, delay source, DMA channel) live with
/// the glue that executes the emitted scripts.
pub struct WaveshareST7789Display {
    transfer: Option<FrameBuffer>,
}

impl WaveshareST7789Display {
    /// Whether a DMA transfer is outstanding. At most one ever is: the
    /// in-flight buffer sits in an `Option`, so a second one is
    /// unrepresentable.
    pub closed spec fn in_flight(&self) -> bool {
        self.transfer is Some
    }

    /// The buffer the engine owns while it is being transferred.
    pub closed spec fn in_flight_buffer(&self) -> FrameBuffer
        recommends
            self.in_flight(),
    {
        match self.transfer {
            Some(fb) => fb,
            None => arbitrary(),
        }
    }

    /// Identity of the in-flight buffer.
    pub open spec fn in_flight_id(&self) -> BufferId
        recommends
            self.in_flight(),
    {
        self.in_flight_buffer().id_spec()
    }

    /// Pixel bytes of the in-flight buffer.
    pub open spec fn in_flight_bytes(&self) -> Seq<u8>
        recommends
            self.in_flight(),
    {
        self.in_flight_buffer().bytes()
    }

    /// A driver is well formed when whatever it transfers is a full frame.
    pub open spec fn wf(&self) -> bool {
        self.in_flight() ==> self.in_flight_buffer().wf()
    }

    /// A fresh driver with nothing in flight. The bus, pin and DMA handles
    /// stay with the glue that executes the scripts.
    pub fn new() -> (r: Self)
        ensures
            !r.in_flight(),
            r.wf(),
    {
        WaveshareST7789Display { transfer: None }
    }

    /// Emit the hardware reset pulse: reset high, low, high, each level held
    /// for its minimum time.
    pub fn hard_reset(&self, out: &mut Vec<BusOp>)
        ensures
            final(out)@ == old(out)@ + reset_sequence(),
    {
        push_reset(out);
    }

    /// Bring the panel up and arm the first transfer.
    ///
    /// Allocates the two static frame buffers, zeroed; emits the fixed
    /// bring-up script, which ends by starting the first transfer carrying
    /// buffer A; and returns that script together with buffer B for the
    /// caller to fill. Afterwards exactly one transfer is in flight and
    /// exactly one buffer is caller-owned.
    pub fn init(&mut self) -> (r: (Vec<BusOp>, FrameBuffer))
        requires
            !old(self).in_flight(),
        ensures
            final(self).in_flight(),
            final(self).wf(),
            final(self).in_flight_id() == BufferId::A,
            forall|i: int|
                0 <= i < final(self).in_flight_bytes().len() ==> final(self).in_flight_bytes()[i]
                    == 0,
            r.1.wf(),
            r.1.id_spec() == BufferId::B,
            forall|i: int| 0 <= i < r.1.bytes().len() ==> r.1.bytes()[i] == 0,
            r.0@ == init_script(),
    {
        let mut script: Vec<BusOp> = Vec::new();
        push_op(&mut script, BusOp::CsHigh);
        proof {
            assert(script@ =~= seq![BusOp::CsHigh]);
        }
        push_reset(&mut script);
        write_command(&mut script, SWRESET);
        push_op(&mut script, BusOp::DelayMs(150));
        write_command(&mut script, SLPOUT);
        push_op(&mut script, BusOp::DelayMs(150));
        write_command(&mut script, COLMOD);
        let mut pixel_format: Vec<u8> = Vec::new();
        pixel_format.push(0x06);
        proof {
            assert(pixel_format@ =~= seq![0x06u8]);
        }
        write_data(&mut script, &pixel_format);
        write_command(&mut script, MADCTL);
        let mut orientation: Vec<u8> = Vec::new();
        orientation.push(0x00);
        proof {
            assert(orientation@ =~= seq![0x00u8]);
        }
        write_data(&mut script, &orientation);
        write_command(&mut script, INVON);
        write_command(&mut script, CASET);
        let cols = window_payload(WIDTH - 1);
        write_data(&mut script, &cols);
        write_command(&mut script, RASET);
        let rows = window_payload(HEIGHT - 1);
        write_data(&mut script, &rows);
        write_command(&mut script, PVGAMCTRL);
        let gamma_pos = gamma_positive_table();
        write_data(&mut script, &gamma_pos);
        write_command(&mut script, NVGAMCTRL);
        let gamma_neg = gamma_negative_table();
        write_data(&mut script, &gamma_neg);
        write_command(&mut script, RAMWR);
        push_op(&mut script, BusOp::DelayMs(1));
        write_buffer(&mut script, BufferId::A);
        push_op(&mut script, BusOp::DelayMs(1));
        write_command(&mut script, DISPON);
        push_op(&mut script, BusOp::DelayMs(120));
        start_frame(&mut script);
        push_op(&mut script, BusOp::DmaStart(BufferId::A));
        let buffer_a = FrameBuffer::alloc_zeroed(BufferId::A);
        let buffer_b = FrameBuffer::alloc_zeroed(BufferId::B);
        self.transfer = Some(buffer_a);
        (script, buffer_b)
    }

    /// Swap buffers: retire the outstanding transfer, start a new one with
    /// the buffer the caller just filled, and hand back the buffer that just
    /// finished, now safe to overwrite.
    ///
    /// The returned script opens with the single wait-for-completion and
    /// closes with the single start-new-transfer. The returned buffer is the
    /// one that was in flight; the caller's buffer — always the other one —
    /// is in flight afterwards.
    pub fn swap_buffers(&mut self, ready_buffer: FrameBuffer) -> (r: (Vec<BusOp>, FrameBuffer))
        requires
            old(self).in_flight(),
            old(self).wf(),
            ready_buffer.wf(),
            ready_buffer.id_spec() != old(self).in_flight_id(),
        ensures
            final(self).in_flight(),
            final(self).wf(),
            final(self).in_flight_id() == ready_buffer.id_spec(),
            final(self).in_flight_bytes() == ready_buffer.bytes(),
            final(self).in_flight_id() == other(old(self).in_flight_id()),
            r.1.wf(),
            r.1.id_spec() == old(self).in_flight_id(),
            r.1.bytes() == old(self).in_flight_bytes(),
            r.1.id_spec() != final(self).in_flight_id(),
            r.0@ == swap_script(ready_buffer.id_spec()),
    {
        let completed_opt = self.transfer.take();
        let completed = match completed_opt {
            Some(fb) => fb,
            None => unreached(),
        };
        let mut script: Vec<BusOp> = Vec::new();
        push_op(&mut script, BusOp::DmaWait);
        proof {
            assert(script@ =~= seq![BusOp::DmaWait]);
        }
        push_op(&mut script, BusOp::CsHigh);
        push_op(&mut script, BusOp::DelayMs(1));
        start_frame(&mut script);
        let ready_id = ready_buffer.id();
        push_op(&mut script, BusOp::DmaStart(ready_id));
        self.transfer = Some(ready_buffer);
        (script, completed)
    }

    /// Identity of the in-flight buffer, if a transfer is outstanding.
    pub fn transfer_id(&self) -> (r: Option<BufferId>)
        ensures
            match r {
                Some(id) => self.in_flight() && id == self.in_flight_id(),
                None => !self.in_flight(),
            },
    {
        match &self.transfer {
            Some(fb) => Some(fb.id()),
            None => None,
        }
    }

    /// Read-only view of the engine-owned buffer's bytes, for the glue that
    /// feeds the DMA engine.
    pub fn transfer_bytes(&self) -> (r: &Vec<u8>)
        requires
            self.in_flight(),
        ensures
            r@ == self.in_flight_bytes(),
    {
        match &self.transfer {
            Some(fb) => fb.as_bytes(),
            None => unreached(),
        }
    }
}

} // verus!
