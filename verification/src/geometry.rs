//! Fixed panel geometry: the display size and the frame-buffer layout.

use vstd::prelude::*;

verus! {

/// Panel width in pixels.
pub const WIDTH: u16 = 240;

/// Panel height in pixels.
pub const HEIGHT: u16 = 320;

/// Bytes per pixel: the 18-bit colour format occupies three bus bytes.
pub const BYTES_PER_PIXEL: usize = 3;

/// Size in bytes of one full frame buffer.
pub const BUFFER_SIZE: usize = 230400;

/// The frame-buffer size is exactly width x height x stride; both static
/// buffers are allocated with this one size.
pub proof fn lemma_buffer_size_exact()
    ensures
        BUFFER_SIZE == WIDTH as int * HEIGHT as int * BYTES_PER_PIXEL as int,
{
}

} // verus!
