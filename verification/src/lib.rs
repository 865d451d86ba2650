//! Double-buffered driver core for an SPI-attached ST7789 LCD panel.
//!
//! The driver is split from the hardware it steers: every decision — how a
//! command or payload is framed on the chip-select/data-command lines, the
//! fixed bring-up sequence, and which of the two frame buffers is in flight
//! on the DMA engine — lives here as verified code, phrased as a script of
//! [`ops::BusOp`] actions. The glue that owns the actual bus, pins, DMA
//! channel and delay source walks such a script and performs each action.

pub mod buffer;
pub mod driver;
pub mod framing;
pub mod geometry;
pub mod ops;
