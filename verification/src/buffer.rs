//! The two statically sized frame buffers whose ownership alternates between
//! the caller and the transfer engine.

use vstd::prelude::*;

verus! {

use crate::geometry::BUFFER_SIZE;
use crate::ops::BufferId;

/// One full frame of pixel bytes together with its identity. Exactly two
/// instances exist once the driver is initialized — one per [`BufferId`] —
/// and each is owned either by the caller or by the transfer engine, never
/// both. Only the driver constructs them, so the caller cannot forge a
/// buffer that aliases the engine-owned one.
pub struct FrameBuffer {
    id: BufferId,
    data: Vec<u8>,
}

impl FrameBuffer {
    /// Which of the two static buffers this is.
    pub closed spec fn id_spec(&self) -> BufferId {
        self.id
    }

    /// The pixel bytes, row-major, three bytes per pixel.
    pub closed spec fn bytes(&self) -> Seq<u8> {
        self.data@
    }

    /// A frame buffer is well formed when it holds exactly one full frame.
    pub open spec fn wf(&self) -> bool {
        self.bytes().len() == BUFFER_SIZE
    }

    /// Allocate the named buffer, zero-initialized, so the first frame shown
    /// is a defined black image.
    pub(crate) fn alloc_zeroed(id: BufferId) -> (r: FrameBuffer)
        ensures
            r.wf(),
            r.id_spec() == id,
            forall|i: int| 0 <= i < BUFFER_SIZE ==> r.bytes()[i] == 0,
    {
        let mut data: Vec<u8> = Vec::new();
        let mut i: usize = 0;
        while i < BUFFER_SIZE
            invariant
                i <= BUFFER_SIZE,
                data@.len() == i,
                forall|j: int| 0 <= j < i ==> data@[j] == 0,
            decreases BUFFER_SIZE - i,
        {
            data.push(0u8);
            i = i + 1;
        }
        FrameBuffer { id, data }
    }

    /// The buffer's identity.
    pub fn id(&self) -> (r: BufferId)
        ensures
            r == self.id_spec(),
    {
        self.id
    }

    /// The number of pixel bytes held.
    pub fn len(&self) -> (r: usize)
        ensures
            r == self.bytes().len(),
    {
        self.data.len()
    }

    /// Read one pixel byte.
    pub fn read_byte(&self, i: usize) -> (r: u8)
        requires
            i < self.bytes().len(),
        ensures
            r == self.bytes()[i as int],
    {
        self.data[i]
    }

    /// Write one pixel byte.
    pub fn write_byte(&mut self, i: usize, v: u8)
        requires
            i < old(self).bytes().len(),
        ensures
            final(self).id_spec() == old(self).id_spec(),
            final(self).bytes() == old(self).bytes().update(i as int, v),
    {
        self.data.set(i, v);
    }

    /// Read-only view of all pixel bytes, for the glue that feeds the bus.
    pub fn as_bytes(&self) -> (r: &Vec<u8>)
        ensures
            r@ == self.bytes(),
    {
        &self.data
    }
}

/// Byte offset of the first channel of the pixel at row `y`, column `x`, in
/// a row-major layout with three bytes per pixel.
pub open spec fn pixel_base(y: int, x: int, width: int) -> int {
    3 * (y * width + x)
}

/// Channel intensity at step `i` of a ramp across `n` steps: the full range
/// spread linearly, quantized to the panel's 6-bit-per-channel step by
/// clearing the low two bits.
pub open spec fn ramp(i: int, n: int) -> u8
    recommends
        2 <= n,
        0 <= i < n,
{
    ((i * 255 / (n - 1)) as u8) & 0xFC
}

/// The pixel at `(y, x)` carries the demo gradient: red ramps with the
/// column, green with the row, and blue follows the frame counter.
pub open spec fn gradient_pixel_ok(
    bytes: Seq<u8>,
    y: int,
    x: int,
    width: int,
    height: int,
    frame_count: u32,
) -> bool {
    &&& bytes[pixel_base(y, x, width)] == ramp(x, width)
    &&& bytes[pixel_base(y, x, width) + 1] == ramp(y, height)
    &&& bytes[pixel_base(y, x, width) + 2] == (frame_count & 0xFC) as u8
}

/// Pixels are laid out in row-major order, so an earlier pixel's channels
/// all lie strictly below a later pixel's first channel.
proof fn lemma_pixel_base_mono(y1: int, x1: int, y2: int, x2: int, width: int)
    requires
        0 <= x1 < width,
        0 <= x2 < width,
        0 <= y1,
        0 <= y2,
        y1 < y2 || (y1 == y2 && x1 < x2),
    ensures
        pixel_base(y1, x1, width) + 2 < pixel_base(y2, x2, width),
{
    if y1 < y2 {
        assert(y1 * width + x1 < y2 * width + x2) by (nonlinear_arith)
            requires
                0 <= x1 < width,
                0 <= x2,
                0 <= y1,
                y1 < y2,
        ;
    }
}

/// Every channel of an in-range pixel lies inside one full frame.
proof fn lemma_pixel_base_bound(y: int, x: int, width: int, height: int)
    requires
        0 <= x < width,
        0 <= y < height,
    ensures
        0 <= y * width + x < width * height,
        0 <= pixel_base(y, x, width),
        pixel_base(y, x, width) + 2 < width * height * 3,
{
    assert(0 <= y * width + x && y * width + x < width * height) by (nonlinear_arith)
        requires
            0 <= x < width,
            0 <= y < height,
    ;
}

/// The quantized ramp value, computed in integer arithmetic.
fn ramp_value(i: usize, n: usize) -> (r: u8)
    requires
        2 <= n,
        i < n,
    ensures
        r == ramp(i as int, n as int),
{
    let q: u128 = (i as u128) * 255 / ((n - 1) as u128);
    proof {
        vstd::arithmetic::div_mod::lemma_div_is_ordered(
            i as int * 255,
            (n - 1) as int * 255,
            (n - 1) as int,
        );
        vstd::arithmetic::div_mod::lemma_div_multiples_vanish(255, (n - 1) as int);
        assert(q <= 255);
    }
    (q as u8) & 0xFC
}

/// Paint the demo gradient into `buffer`: red ramps left to right, green
/// top to bottom, and blue follows the frame counter, each channel
/// quantized to the panel's 6-bit step.
pub fn fill_frame_buffer(buffer: &mut FrameBuffer, frame_count: u32, width: usize, height: usize)
    requires
        2 <= width,
        2 <= height,
        width * height * 3 <= old(buffer).bytes().len(),
    ensures
        final(buffer).id_spec() == old(buffer).id_spec(),
        final(buffer).bytes().len() == old(buffer).bytes().len(),
        forall|y: int, x: int|
            0 <= y < height && 0 <= x < width ==> #[trigger] gradient_pixel_ok(
                final(buffer).bytes(),
                y,
                x,
                width as int,
                height as int,
                frame_count,
            ),
{
    proof {
        assert((frame_count & 0xFC) <= 0xFC) by (bit_vector);
    }
    let blue: u8 = (frame_count & 0xFC) as u8;
    let total: usize = buffer.len();
    proof {
        assert(width * height * 3 <= total <= usize::MAX);
    }
    let mut y: usize = 0;
    while y < height
        invariant
            2 <= width,
            2 <= height,
            y <= height,
            width * height * 3 <= buffer.bytes().len(),
            width * height * 3 <= usize::MAX,
            buffer.id_spec() == old(buffer).id_spec(),
            buffer.bytes().len() == old(buffer).bytes().len(),
            blue == (frame_count & 0xFC) as u8,
            forall|yy: int, xx: int|
                0 <= yy < y && 0 <= xx < width ==> #[trigger] gradient_pixel_ok(
                    buffer.bytes(),
                    yy,
                    xx,
                    width as int,
                    height as int,
                    frame_count,
                ),
        decreases height - y,
    {
        let green: u8 = ramp_value(y, height);
        let mut x: usize = 0;
        while x < width
            invariant
                2 <= width,
                2 <= height,
                y < height,
                x <= width,
                width * height * 3 <= buffer.bytes().len(),
            width * height * 3 <= usize::MAX,
                buffer.id_spec() == old(buffer).id_spec(),
                buffer.bytes().len() == old(buffer).bytes().len(),
                blue == (frame_count & 0xFC) as u8,
                green == ramp(y as int, height as int),
                forall|yy: int, xx: int|
                    0 <= yy < y && 0 <= xx < width ==> #[trigger] gradient_pixel_ok(
                        buffer.bytes(),
                        yy,
                        xx,
                        width as int,
                        height as int,
                        frame_count,
                    ),
                forall|xx: int|
                    0 <= xx < x ==> #[trigger] gradient_pixel_ok(
                        buffer.bytes(),
                        y as int,
                        xx,
                        width as int,
                        height as int,
                        frame_count,
                    ),
            decreases width - x,
        {
            let red: u8 = ramp_value(x, width);
            proof {
                lemma_pixel_base_bound(y as int, x as int, width as int, height as int);
                assert(width * height <= width * height * 3) by (nonlinear_arith)
                    requires
                        0 <= width,
                        0 <= height,
                ;
                assert(y * width + x < width * height);
                assert(3 * (y * width + x) + 2 < width * height * 3);
            }
            let base: usize = 3 * (y * width + x);
            proof {
                assert(base == pixel_base(y as int, x as int, width as int));
            }
            let ghost pre = buffer.bytes();
            buffer.write_byte(base, red);
            buffer.write_byte(base + 1, green);
            buffer.write_byte(base + 2, blue);
            proof {
                assert(gradient_pixel_ok(
                    buffer.bytes(),
                    y as int,
                    x as int,
                    width as int,
                    height as int,
                    frame_count,
                ));
                assert forall|yy: int, xx: int|
                    0 <= yy < y && 0 <= xx < width implies #[trigger] gradient_pixel_ok(
                    buffer.bytes(),
                    yy,
                    xx,
                    width as int,
                    height as int,
                    frame_count,
                ) by {
                    assert(gradient_pixel_ok(
                        pre,
                        yy,
                        xx,
                        width as int,
                        height as int,
                        frame_count,
                    ));
                    lemma_pixel_base_mono(yy, xx, y as int, x as int, width as int);
                    assert(buffer.bytes()[pixel_base(yy, xx, width as int)] == pre[pixel_base(
                        yy,
                        xx,
                        width as int,
                    )]);
                    assert(buffer.bytes()[pixel_base(yy, xx, width as int) + 1] == pre[pixel_base(
                        yy,
                        xx,
                        width as int,
                    ) + 1]);
                    assert(buffer.bytes()[pixel_base(yy, xx, width as int) + 2] == pre[pixel_base(
                        yy,
                        xx,
                        width as int,
                    ) + 2]);
                }
                assert forall|xx: int| 0 <= xx < x implies #[trigger] gradient_pixel_ok(
                    buffer.bytes(),
                    y as int,
                    xx,
                    width as int,
                    height as int,
                    frame_count,
                ) by {
                    assert(gradient_pixel_ok(
                        pre,
                        y as int,
                        xx,
                        width as int,
                        height as int,
                        frame_count,
                    ));
                    lemma_pixel_base_mono(y as int, xx, y as int, x as int, width as int);
                    assert(buffer.bytes()[pixel_base(y as int, xx, width as int)] == pre[pixel_base(
                        y as int,
                        xx,
                        width as int,
                    )]);
                    assert(buffer.bytes()[pixel_base(y as int, xx, width as int) + 1]
                        == pre[pixel_base(y as int, xx, width as int) + 1]);
                    assert(buffer.bytes()[pixel_base(y as int, xx, width as int) + 2]
                        == pre[pixel_base(y as int, xx, width as int) + 2]);
                }
            }
            x = x + 1;
        }
        y = y + 1;
    }
}

} // verus!
