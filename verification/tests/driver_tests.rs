use st7789_dma::buffer::{fill_frame_buffer, FrameBuffer};
use st7789_dma::driver::WaveshareST7789Display;
use st7789_dma::geometry::{BUFFER_SIZE, BYTES_PER_PIXEL, HEIGHT, WIDTH};
use st7789_dma::ops::{other_buffer, BufferId, BusOp};

/// One observed protocol event, recovered from the pin-level script by the
/// recording mock below.
#[derive(Debug, PartialEq, Eq, Clone)]
enum Event {
    Command(u8),
    Data(Vec<u8>),
    BufferWrite(BufferId),
    DmaStart(BufferId),
    DmaWait,
}

/// A recording mock of the bus, pins and DMA channel. It executes a script
/// immediately, checks the chip-select/data-command discipline as it goes,
/// and recovers the transaction-level events.
struct MockBus {
    cs_low: bool,
    dc_high: bool,
    events: Vec<Event>,
    pending_data: Vec<u8>,
}

impl MockBus {
    fn new() -> MockBus {
        MockBus { cs_low: false, dc_high: false, events: Vec::new(), pending_data: Vec::new() }
    }

    fn flush_data(&mut self) {
        if !self.pending_data.is_empty() {
            let d = std::mem::take(&mut self.pending_data);
            self.events.push(Event::Data(d));
        }
    }

    fn run(&mut self, script: &[BusOp]) {
        for (i, op) in script.iter().enumerate() {
            match *op {
                BusOp::CsLow => {
                    assert!(!self.cs_low, "chip-select asserted twice at op {i}");
                    // The data/command level must have been set by the
                    // immediately preceding action.
                    assert!(
                        i > 0 && matches!(script[i - 1], BusOp::DcLow | BusOp::DcHigh),
                        "chip-select asserted before the data/command line was set, at op {i}"
                    );
                    self.cs_low = true;
                }
                BusOp::CsHigh => {
                    self.flush_data();
                    self.cs_low = false;
                }
                BusOp::DcLow => {
                    self.flush_data();
                    self.dc_high = false;
                }
                BusOp::DcHigh => {
                    self.flush_data();
                    self.dc_high = true;
                }
                BusOp::RstLow | BusOp::RstHigh | BusOp::DelayMs(_) | BusOp::DelayNs(_) => {}
                BusOp::Write(b) => {
                    assert!(self.cs_low, "bus write outside a transaction at op {i}");
                    if self.dc_high {
                        self.pending_data.push(b);
                    } else {
                        self.events.push(Event::Command(b));
                    }
                }
                BusOp::WriteBuffer(id) => {
                    assert!(self.cs_low, "buffer write outside a transaction at op {i}");
                    assert!(self.dc_high, "buffer write in command mode at op {i}");
                    self.events.push(Event::BufferWrite(id));
                }
                BusOp::DmaStart(id) => {
                    // This mock completes transfers immediately.
                    self.events.push(Event::DmaStart(id));
                }
                BusOp::DmaWait => {
                    self.events.push(Event::DmaWait);
                }
            }
        }
        self.flush_data();
    }
}

#[test]
fn buffer_size_is_width_height_stride() {
    assert_eq!(BUFFER_SIZE, WIDTH as usize * HEIGHT as usize * BYTES_PER_PIXEL);
    assert_eq!(BUFFER_SIZE, 230400);
}

#[test]
fn both_static_buffers_have_identical_size() {
    let mut display = WaveshareST7789Display::new();
    let (_script, caller_buffer) = display.init();
    assert_eq!(caller_buffer.len(), BUFFER_SIZE);
    assert_eq!(display.transfer_bytes().len(), BUFFER_SIZE);
}

#[test]
fn caset_payload_for_full_width() {
    let payload = st7789_dma::framing::window_payload(WIDTH - 1);
    assert_eq!(payload, vec![0x00, 0x00, 0x00, 0xEF]);
}

#[test]
fn raset_payload_for_full_height() {
    let payload = st7789_dma::framing::window_payload(HEIGHT - 1);
    assert_eq!(payload, vec![0x00, 0x00, 0x01, 0x3F]);
}

#[test]
fn hard_reset_pulse_levels_and_minimum_delays() {
    let display = WaveshareST7789Display::new();
    let mut script: Vec<BusOp> = Vec::new();
    display.hard_reset(&mut script);
    assert_eq!(
        script,
        vec![
            BusOp::RstHigh,
            BusOp::DelayMs(100),
            BusOp::RstLow,
            BusOp::DelayMs(100),
            BusOp::RstHigh,
            BusOp::DelayMs(120),
        ]
    );
}

#[test]
fn init_issues_bring_up_sequence_in_order() {
    let mut display = WaveshareST7789Display::new();
    let (script, _caller_buffer) = display.init();
    let mut bus = MockBus::new();
    bus.run(&script);
    let expected = vec![
        Event::Command(0x01), // software reset
        Event::Command(0x11), // sleep out
        Event::Command(0x3A), // pixel format
        Event::Data(vec![0x06]),
        Event::Command(0x36), // memory access / orientation
        Event::Data(vec![0x00]),
        Event::Command(0x21), // inversion on
        Event::Command(0x2A), // column address window
        Event::Data(vec![0x00, 0x00, 0x00, 0xEF]),
        Event::Command(0x2B), // row address window
        Event::Data(vec![0x00, 0x00, 0x01, 0x3F]),
        Event::Command(0xE0), // positive gamma table
        Event::Data(vec![
            0xD0, 0x08, 0x11, 0x08, 0x0C, 0x15, 0x39, 0x33, 0x50, 0x36, 0x13, 0x14, 0x29, 0x2D,
        ]),
        Event::Command(0xE1), // negative gamma table
        Event::Data(vec![
            0xD0, 0x08, 0x10, 0x08, 0x06, 0x06, 0x39, 0x44, 0x51, 0x0B, 0x16, 0x14, 0x2F, 0x31,
        ]),
        Event::Command(0x2C), // memory write, then the synchronous priming frame
        Event::BufferWrite(BufferId::A),
        Event::Command(0x29), // display on
        Event::Command(0x2C), // memory write re-issued for the armed transfer
        Event::DmaStart(BufferId::A),
    ];
    assert_eq!(bus.events, expected);
}

#[test]
fn init_arms_exactly_one_transfer_and_returns_one_buffer() {
    let mut display = WaveshareST7789Display::new();
    let (script, caller_buffer) = display.init();
    let starts = script.iter().filter(|op| matches!(op, BusOp::DmaStart(_))).count();
    let waits = script.iter().filter(|op| matches!(op, BusOp::DmaWait)).count();
    assert_eq!(starts, 1);
    assert_eq!(waits, 0);
    assert_eq!(script.last(), Some(&BusOp::DmaStart(BufferId::A)));
    assert_eq!(display.transfer_id(), Some(BufferId::A));
    assert_eq!(caller_buffer.id(), BufferId::B);
}

#[test]
fn init_primes_panel_with_zeroed_buffer() {
    let mut display = WaveshareST7789Display::new();
    let (_script, caller_buffer) = display.init();
    assert!(display.transfer_bytes().iter().all(|&b| b == 0));
    assert_eq!(caller_buffer.read_byte(0), 0);
    assert_eq!(caller_buffer.read_byte(BUFFER_SIZE - 1), 0);
}

#[test]
fn swap_script_has_one_wait_then_one_start() {
    let mut display = WaveshareST7789Display::new();
    let (_script, caller_buffer) = display.init();
    let (script, _returned) = display.swap_buffers(caller_buffer);
    let waits: Vec<usize> = script
        .iter()
        .enumerate()
        .filter(|(_, op)| matches!(op, BusOp::DmaWait))
        .map(|(i, _)| i)
        .collect();
    let starts: Vec<usize> = script
        .iter()
        .enumerate()
        .filter(|(_, op)| matches!(op, BusOp::DmaStart(_)))
        .map(|(i, _)| i)
        .collect();
    assert_eq!(waits.len(), 1);
    assert_eq!(starts.len(), 1);
    assert!(waits[0] < starts[0], "the wait must come strictly before the new start");
    assert_eq!(script[0], BusOp::DmaWait);
    assert_eq!(script.last(), Some(&BusOp::DmaStart(BufferId::B)));
}

#[test]
fn swap_carries_the_filled_pattern_to_dma() {
    let mut display = WaveshareST7789Display::new();
    let (_script, mut caller_buffer) = display.init();
    for i in 0..64 {
        caller_buffer.write_byte(i, (i as u8).wrapping_mul(3).wrapping_add(7));
    }
    let (script, returned) = display.swap_buffers(caller_buffer);
    let mut bus = MockBus::new();
    bus.run(&script);
    assert_eq!(bus.events.first(), Some(&Event::DmaWait));
    assert_eq!(bus.events.last(), Some(&Event::DmaStart(BufferId::B)));
    // The mock DMA reads the engine-owned bytes: exactly the pattern.
    let sent = display.transfer_bytes();
    for i in 0..64 {
        assert_eq!(sent[i], (i as u8).wrapping_mul(3).wrapping_add(7));
    }
    assert!(sent[64..].iter().all(|&b| b == 0));
    // The returned buffer is the other static buffer.
    assert_eq!(returned.id(), BufferId::A);
    assert_eq!(returned.len(), BUFFER_SIZE);
}

#[test]
fn ownership_alternates_over_many_swaps() {
    let mut display = WaveshareST7789Display::new();
    let (_script, mut buffer) = display.init();
    let mut last_returned: Option<BufferId> = None;
    for _ in 0..7 {
        let held = buffer.id();
        let (_swap_script, returned) = display.swap_buffers(buffer);
        // The result is never the buffer just handed in, and never anything
        // but one of the two static buffers (the type admits no other).
        assert_ne!(returned.id(), held);
        assert_eq!(returned.id(), other_buffer(held));
        // Consecutive results never repeat.
        if let Some(prev) = last_returned {
            assert_ne!(returned.id(), prev);
        }
        last_returned = Some(returned.id());
        // Exactly one buffer is engine-owned and one caller-owned.
        assert_eq!(display.transfer_id(), Some(held));
        buffer = returned;
    }
}

#[test]
fn every_transaction_sets_dc_before_cs() {
    let mut display = WaveshareST7789Display::new();
    let (init_script, caller_buffer) = display.init();
    // The mock itself asserts that chip-select only asserts right after the
    // data/command line was set, and that writes happen inside transactions.
    let mut bus = MockBus::new();
    bus.run(&init_script);
    let (swap_script, _returned) = display.swap_buffers(caller_buffer);
    let mut bus2 = MockBus::new();
    // The swap script closes the transaction the armed transfer left open.
    bus2.cs_low = true;
    bus2.dc_high = true;
    bus2.run(&swap_script);
}

#[test]
fn gradient_fill_exact_channel_values() {
    let mut display = WaveshareST7789Display::new();
    let (_script, mut buffer) = display.init();
    let width = WIDTH as usize;
    let height = HEIGHT as usize;
    fill_frame_buffer(&mut buffer, 7, width, height);
    let at = |b: &FrameBuffer, y: usize, x: usize| {
        let base = 3 * (y * width + x);
        (b.read_byte(base), b.read_byte(base + 1), b.read_byte(base + 2))
    };
    // Top-left: both ramps at zero; blue = 7 & 0xFC = 4.
    assert_eq!(at(&buffer, 0, 0), (0, 0, 4));
    // Top-right: red ramp at full scale, 255 & 0xFC = 0xFC.
    assert_eq!(at(&buffer, 0, width - 1), (0xFC, 0, 4));
    // Bottom-left: green ramp at full scale.
    assert_eq!(at(&buffer, height - 1, 0), (0, 0xFC, 4));
    // Mid-row pixel: 120*255/239 = 128, masked to 128.
    assert_eq!(at(&buffer, 0, 120), (128, 0, 4));
    // Mid-column pixel: 160*255/319 = 127, masked to 124.
    assert_eq!(at(&buffer, 160, 0), (0, 124, 4));
}

#[test]
fn gradient_fill_keeps_identity_and_size() {
    let mut display = WaveshareST7789Display::new();
    let (_script, mut buffer) = display.init();
    fill_frame_buffer(&mut buffer, 0, WIDTH as usize, HEIGHT as usize);
    assert_eq!(buffer.id(), BufferId::B);
    assert_eq!(buffer.len(), BUFFER_SIZE);
}
