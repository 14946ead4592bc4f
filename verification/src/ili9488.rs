use vstd::prelude::*;

use crate::bus::{
    bus_protocol_ok, bytes_sent, cs_low_after, cs_low_at, lemma_bytes_sent_concat,
    lemma_cs_after_concat, lemma_framed_concat, lemma_protocol_append, lemma_steps_of_push,
    steps_of, write_ok, writes_framed, BusOp, BusStep,
};
use crate::color::{raw565, Color565};
use crate::geometry::{intersection, intersection_spec, Rect};

verus! {

/// Panel width in pixels (landscape).
pub const WIDTH: u32 = 480;

/// Panel height in pixels (landscape).
pub const HEIGHT: u32 = 320;

/// Pixels in one buffer of a solid fill.
pub const PIXELS_PER_CHUNK: u32 = 240;

/// The whole panel as a rectangle.
pub open spec fn screen_rect() -> Rect {
    Rect { x: 0, y: 0, width: 480, height: 320 }
}

/// A command byte padded to 16 bits.
pub open spec fn command_word(cmd: u8) -> Seq<u8> {
    seq![0u8, cmd]
}

/// Each parameter byte padded to 16 bits: `[0, d0, 0, d1, ...]`.
pub open spec fn padded(data: Seq<u8>) -> Seq<u8> {
    Seq::new(2 * data.len(), |i: int| if i % 2 == 0 { 0u8 } else { data[i / 2] })
}

/// A command without parameters, in its own chip-select frame.
pub open spec fn command_steps(cmd: u8) -> Seq<BusStep> {
    seq![
        BusStep::Dc(false),
        BusStep::Cs(false),
        BusStep::Write(command_word(cmd)),
        BusStep::Cs(true),
    ]
}

/// A command followed by its padded parameters, in one chip-select frame.
pub open spec fn command_data_steps(cmd: u8, data: Seq<u8>) -> Seq<BusStep> {
    seq![
        BusStep::Dc(false),
        BusStep::Cs(false),
        BusStep::Write(command_word(cmd)),
        BusStep::Dc(true),
        BusStep::Write(padded(data)),
        BusStep::Cs(true),
    ]
}

/// Two 16-bit coordinates, each most significant byte first.
pub open spec fn coord_pair(a: u16, b: u16) -> Seq<u8> {
    seq![(a / 256) as u8, (a % 256) as u8, (b / 256) as u8, (b % 256) as u8]
}

/// Column address set, then page address set.
pub open spec fn window_steps(x0: u16, y0: u16, x1: u16, y1: u16) -> Seq<BusStep> {
    command_data_steps(0x2A, coord_pair(x0, x1)) + command_data_steps(0x2B, coord_pair(y0, y1))
}

/// Memory write: the panel stays selected for the pixel stream.
pub open spec fn start_pixels_steps() -> Seq<BusStep> {
    seq![
        BusStep::Dc(false),
        BusStep::Cs(false),
        BusStep::Write(command_word(0x2C)),
        BusStep::Dc(true),
    ]
}

/// End of the pixel stream.
pub open spec fn end_pixels_steps() -> Seq<BusStep> {
    seq![BusStep::Cs(true)]
}

/// `n` pixels of colour `c`, two bytes each.
pub open spec fn pattern(c: Color565, n: nat) -> Seq<u8> {
    Seq::new(2 * n, |i: int| c.bytes_spec()[i % 2])
}

/// `count` pixels of one colour, sent in buffers of 240 pixels and a rest.
pub open spec fn solid_steps(c: Color565, count: nat) -> Seq<BusStep> {
    let chunk = PIXELS_PER_CHUNK as nat;
    (if count / chunk > 0 {
        seq![BusStep::WriteRepeated(pattern(c, chunk), count / chunk)]
    } else {
        Seq::empty()
    }) + (if count % chunk > 0 {
        seq![BusStep::Write(pattern(c, count % chunk))]
    } else {
        Seq::empty()
    })
}

/// The whole panel filled with one colour.
pub open spec fn clear_screen_steps(c: Color565) -> Seq<BusStep> {
    window_steps(0, 0, 479, 319) + start_pixels_steps() + solid_steps(c, 480 * 320)
        + end_pixels_steps()
}

/// Display inversion on or off.
pub open spec fn set_inverted_steps(inverted: bool) -> Seq<BusStep> {
    command_steps(if inverted { 0x21u8 } else { 0x20u8 })
}

/// A pixel to set: position and colour.
#[derive(Clone, Copy, Debug, PartialEq, Eq, Structural)]
pub struct Pixel {
    pub x: i32,
    pub y: i32,
    pub color: Color565,
}

/// The pixel lies on the panel.
pub open spec fn on_screen(x: int, y: int) -> bool {
    0 <= x < 480 && 0 <= y < 320
}

/// A single pixel: a one-pixel window and its two bytes.
#[verifier::opaque]
pub open spec fn pixel_steps(p: Pixel) -> Seq<BusStep> {
    if on_screen(p.x as int, p.y as int) {
        window_steps(p.x as u16, p.y as u16, p.x as u16, p.y as u16) + start_pixels_steps()
            + seq![BusStep::Write(p.color.bytes_spec())] + end_pixels_steps()
    } else {
        Seq::empty()
    }
}

/// Each pixel in turn; those off the panel are skipped.
pub open spec fn pixels_steps(ps: Seq<Pixel>) -> Seq<BusStep>
    decreases ps.len(),
{
    if ps.len() == 0 {
        Seq::empty()
    } else {
        pixels_steps(ps.drop_last()) + pixel_steps(ps.last())
    }
}

/// The window that covers a clipped area: first and last column and row.
pub open spec fn window_of(c: Rect) -> (u16, u16, u16, u16) {
    let x0 = c.x as u16;
    let y0 = c.y as u16;
    (x0, y0, (x0 + (c.width as u16) - 1) as u16, (y0 + (c.height as u16) - 1) as u16)
}

/// The window arithmetic of the driver stays in `u16`: the clipped area is
/// either the zero rectangle, or its last column and row fit.
pub open spec fn window_fits(c: Rect) -> bool {
    (c.width == 0 && c.height == 0) || {
        &&& 1 <= (c.x as u16) + (c.width as u16) <= u16::MAX
        &&& 1 <= (c.y as u16) + (c.height as u16) <= u16::MAX
    }
}

/// The area of a fill, clipped to the panel.
pub open spec fn clip(area: Rect) -> Rect {
    intersection_spec(area, screen_rect())
}

/// Colours streamed one after another, two bytes each.
pub open spec fn colors_steps(colors: Seq<Color565>) -> Seq<BusStep> {
    Seq::new(colors.len(), |i: int| BusStep::Write(colors[i].bytes_spec()))
}

/// The window of the clipped area, then the pixel data, unless the clipped
/// area is the zero rectangle.
pub open spec fn framed_fill(area: Rect, body: Seq<BusStep>) -> Seq<BusStep> {
    let c = clip(area);
    if c.width == 0 && c.height == 0 {
        Seq::empty()
    } else {
        let w = window_of(c);
        window_steps(w.0, w.1, w.2, w.3) + start_pixels_steps() + body + end_pixels_steps()
    }
}

/// `fill_contiguous`: every given colour is streamed into the clipped area.
pub open spec fn fill_contiguous_steps(area: Rect, colors: Seq<Color565>) -> Seq<BusStep> {
    framed_fill(area, colors_steps(colors))
}

/// `fill_solid`: the clipped area is filled with one colour.
pub open spec fn fill_solid_steps(area: Rect, color: Color565) -> Seq<BusStep> {
    let c = clip(area);
    framed_fill(area, solid_steps(color, (c.width * c.height) as nat))
}

/// Hardware reset: reset high, low, high again, with the settling delays.
pub open spec fn reset_steps() -> Seq<BusStep> {
    seq![
        BusStep::Rst(true),
        BusStep::DelayMs(10),
        BusStep::Rst(false),
        BusStep::DelayMs(10),
        BusStep::Rst(true),
        BusStep::DelayMs(120),
    ]
}

/// The register settings of the panel: command and parameters, in the
/// order they are sent.
pub open spec fn config_table() -> Seq<(u8, Seq<u8>)> {
    seq![
        (0xE0u8, seq![0x00u8, 0x07u8, 0x0Fu8, 0x0Du8, 0x1Bu8, 0x0Au8, 0x3Cu8, 0x78u8, 0x4Au8, 0x07u8, 0x0Eu8, 0x09u8, 0x1Bu8, 0x1Eu8, 0x0Fu8]),
        (0xE1u8, seq![0x00u8, 0x22u8, 0x24u8, 0x06u8, 0x12u8, 0x07u8, 0x36u8, 0x47u8, 0x47u8, 0x06u8, 0x0Au8, 0x07u8, 0x30u8, 0x37u8, 0x0Fu8]),
        (0xC0u8, seq![0x10u8, 0x10u8]),
        (0xC1u8, seq![0x41u8]),
        (0xC5u8, seq![0x00u8, 0x22u8, 0x80u8]),
        (0x36u8, seq![0xE8u8]),
        (0x3Au8, seq![0x55u8]),
        (0xB0u8, seq![0x00u8]),
        (0xB1u8, seq![0xB0u8, 0x11u8]),
        (0xB4u8, seq![0x02u8]),
        (0xB6u8, seq![0x02u8, 0x02u8]),
        (0xB7u8, seq![0xC6u8]),
        (0xF7u8, seq![0xA9u8, 0x51u8, 0x2Cu8, 0x82u8]),
    ]
}

/// Each command of a table with its parameters, one frame after another.
pub open spec fn commands_steps(cmds: Seq<(u8, Seq<u8>)>) -> Seq<BusStep>
    decreases cmds.len(),
{
    if cmds.len() == 0 {
        Seq::empty()
    } else {
        commands_steps(cmds.drop_last()) + command_data_steps(cmds.last().0, cmds.last().1)
    }
}

/// The register settings of the panel as bus steps.
pub open spec fn config_steps() -> Seq<BusStep> {
    commands_steps(config_table())
}

/// Power-up of the panel: reset, register settings, sleep out, display on.
pub open spec fn init_steps() -> Seq<BusStep> {
    reset_steps() + config_steps() + command_steps(0x11) + seq![BusStep::DelayMs(120)]
        + command_steps(0x29) + seq![BusStep::DelayMs(20)]
}

/// The driver's record of what it has sent to the panel: a sequence of bus
/// steps that the hardware layer carries out in order.
pub struct Ili9488Display {
    ops: Vec<BusOp>,
}

impl View for Ili9488Display {
    type V = Seq<BusStep>;

    closed spec fn view(&self) -> Seq<BusStep> {
        steps_of(self.ops@)
    }
}

impl Ili9488Display {
    /// A driver that has sent nothing yet.
    pub fn new() -> (d: Ili9488Display)
        ensures
            d@ == Seq::<BusStep>::empty(),
            bus_protocol_ok(d@),
    {
        let d = Ili9488Display { ops: Vec::new() };
        assert(d@ =~= Seq::<BusStep>::empty());
        d
    }

    /// Size of the panel in pixels: width and height.
    pub fn size(&self) -> (wh: (u32, u32))
        ensures
            wh == (480u32, 320u32),
    {
        (WIDTH, HEIGHT)
    }

    /// Hands the recorded steps to the hardware layer and forgets them.
    pub fn take_ops(&mut self) -> (ops: Vec<BusOp>)
        ensures
            steps_of(ops@) == old(self)@,
            final(self)@ == Seq::<BusStep>::empty(),
    {
        let mut ops = Vec::new();
        std::mem::swap(&mut ops, &mut self.ops);
        assert(self@ =~= Seq::<BusStep>::empty());
        ops
    }

    fn push(&mut self, op: BusOp)
        ensures
            final(self)@ == old(self)@.push(op@),
    {
        proof {
            lemma_steps_of_push(self.ops@, op);
        }
        self.ops.push(op);
    }

    /// Send a command byte padded to 16 bits: `[0x00, cmd]`.
    fn write_command(&mut self, cmd: u8)
        ensures
            final(self)@ == old(self)@ + command_steps(cmd),
    {
        let ghost start = self@;
        self.push(BusOp::Dc(false));
        self.push(BusOp::Cs(false));
        let w = vec![0x00u8, cmd];
        assert(w@ =~= command_word(cmd));
        self.push(BusOp::Write(w));
        self.push(BusOp::Cs(true));
        assert(self@ =~= start + command_steps(cmd));
    }

    /// Send a command and its parameters, each padded to 16 bits.
    fn write_command_with_data(&mut self, cmd: u8, data: &[u8])
        requires
            data@.len() <= 32,
        ensures
            final(self)@ == old(self)@ + command_data_steps(cmd, data@),
    {
        let ghost start = self@;
        self.push(BusOp::Dc(false));
        self.push(BusOp::Cs(false));
        let w = vec![0x00u8, cmd];
        assert(w@ =~= command_word(cmd));
        self.push(BusOp::Write(w));
        self.push(BusOp::Dc(true));
        let mut buf: Vec<u8> = Vec::new();
        let mut i: usize = 0;
        while i < data.len()
            invariant
                i <= data@.len(),
                buf@ =~= padded(data@.take(i as int)),
            decreases data@.len() - i,
        {
            buf.push(0x00u8);
            buf.push(data[i]);
            i += 1;
            assert(buf@ =~= padded(data@.take(i as int)));
        }
        assert(data@.take(data@.len() as int) =~= data@);
        self.push(BusOp::Write(buf));
        self.push(BusOp::Cs(true));
        assert(self@ =~= start + command_data_steps(cmd, data@));
    }

    fn set_window(&mut self, x0: u16, y0: u16, x1: u16, y1: u16)
        ensures
            final(self)@ == old(self)@ + window_steps(x0, y0, x1, y1),
    {
        proof {
            assert(x0 >> 8u16 == x0 / 256 && x0 & 0xFFu16 == x0 % 256) by (bit_vector);
            assert(x1 >> 8u16 == x1 / 256 && x1 & 0xFFu16 == x1 % 256) by (bit_vector);
            assert(y0 >> 8u16 == y0 / 256 && y0 & 0xFFu16 == y0 % 256) by (bit_vector);
            assert(y1 >> 8u16 == y1 / 256 && y1 & 0xFFu16 == y1 % 256) by (bit_vector);
        }
        let ghost start = self@;
        let cols = [(x0 >> 8) as u8, (x0 & 0xFF) as u8, (x1 >> 8) as u8, (x1 & 0xFF) as u8];
        assert(cols@ =~= coord_pair(x0, x1));
        self.write_command_with_data(0x2A, &cols);
        let rows = [(y0 >> 8) as u8, (y0 & 0xFF) as u8, (y1 >> 8) as u8, (y1 & 0xFF) as u8];
        assert(rows@ =~= coord_pair(y0, y1));
        self.write_command_with_data(0x2B, &rows);
        assert(self@ =~= start + window_steps(x0, y0, x1, y1));
    }

    /// Send the memory write command and keep the panel selected for
    /// the pixel stream.
    fn start_pixels(&mut self)
        ensures
            final(self)@ == old(self)@ + start_pixels_steps(),
    {
        let ghost start = self@;
        self.push(BusOp::Dc(false));
        self.push(BusOp::Cs(false));
        let w = vec![0x00u8, 0x2Cu8];
        assert(w@ =~= command_word(0x2C));
        self.push(BusOp::Write(w));
        self.push(BusOp::Dc(true));
        assert(self@ =~= start + start_pixels_steps());
    }

    fn end_pixels(&mut self)
        ensures
            final(self)@ == old(self)@ + end_pixels_steps(),
    {
        let ghost start = self@;
        self.push(BusOp::Cs(true));
        assert(self@ =~= start + end_pixels_steps());
    }

    /// Turns display inversion on or off.
    pub fn set_inverted(&mut self, inverted: bool)
        ensures
            final(self)@ == old(self)@ + set_inverted_steps(inverted),
            bus_protocol_ok(old(self)@) ==> bus_protocol_ok(final(self)@),
    {
        let ghost start = self@;
        if inverted {
            self.write_command(0x21);
        } else {
            self.write_command(0x20);
        }
        proof {
            lemma_command_protocol(if inverted { 0x21u8 } else { 0x20u8 });
            if bus_protocol_ok(start) {
                lemma_protocol_append(start, set_inverted_steps(inverted));
            }
        }
    }

    /// Resets the panel and sends its power-up configuration.
    pub fn init(&mut self)
        ensures
            final(self)@ == old(self)@ + init_steps(),
            bus_protocol_ok(old(self)@) ==> bus_protocol_ok(final(self)@),
    {
        let ghost start = self@;
        // Hardware reset
        self.push(BusOp::Rst(true));
        self.push(BusOp::DelayMs(10));
        self.push(BusOp::Rst(false));
        self.push(BusOp::DelayMs(10));
        self.push(BusOp::Rst(true));
        self.push(BusOp::DelayMs(120));
        assert(self@ =~= start + reset_steps());
        self.configure();
        let ghost configured = self@;
        // Sleep out
        self.write_command(0x11);
        self.push(BusOp::DelayMs(120));
        // Display on
        self.write_command(0x29);
        self.push(BusOp::DelayMs(20));
        assert(self@ =~= configured + command_steps(0x11) + seq![BusStep::DelayMs(120)]
            + command_steps(0x29) + seq![BusStep::DelayMs(20)]);
        assert(self@ =~= start + init_steps());
        proof {
            lemma_init_protocol();
            if bus_protocol_ok(start) {
                lemma_protocol_append(start, init_steps());
            }
        }
    }

    /// The register settings of the panel.
    fn configure(&mut self)
        ensures
            final(self)@ == old(self)@ + config_steps(),
    {
        let ghost start = self@;
        assert(config_table().take(0) =~= Seq::<(u8, Seq<u8>)>::empty());
        assert(self@ =~= start + commands_steps(config_table().take(0)));
        // Positive gamma control
        let data: [u8; 15] = [0x00, 0x07, 0x0F, 0x0D, 0x1B, 0x0A, 0x3C, 0x78, 0x4A, 0x07, 0x0E, 0x09, 0x1B, 0x1E, 0x0F];
        assert(data@ =~= config_table()[0].1);
        let ghost before = self@;
        self.write_command_with_data(0xE0, &data);
        proof {
            lemma_config_prefix(start, before, self@, 0);
        }
        // Negative gamma control
        let data: [u8; 15] = [0x00, 0x22, 0x24, 0x06, 0x12, 0x07, 0x36, 0x47, 0x47, 0x06, 0x0A, 0x07, 0x30, 0x37, 0x0F];
        assert(data@ =~= config_table()[1].1);
        let ghost before = self@;
        self.write_command_with_data(0xE1, &data);
        proof {
            lemma_config_prefix(start, before, self@, 1);
        }
        // Power control 1
        let data: [u8; 2] = [0x10, 0x10];
        assert(data@ =~= config_table()[2].1);
        let ghost before = self@;
        self.write_command_with_data(0xC0, &data);
        proof {
            lemma_config_prefix(start, before, self@, 2);
        }
        // Power control 2
        let data: [u8; 1] = [0x41];
        assert(data@ =~= config_table()[3].1);
        let ghost before = self@;
        self.write_command_with_data(0xC1, &data);
        proof {
            lemma_config_prefix(start, before, self@, 3);
        }
        // VCOM control
        let data: [u8; 3] = [0x00, 0x22, 0x80];
        assert(data@ =~= config_table()[4].1);
        let ghost before = self@;
        self.write_command_with_data(0xC5, &data);
        proof {
            lemma_config_prefix(start, before, self@, 4);
        }
        // Memory access control: landscape, rotated 180 degrees, BGR
        let data: [u8; 1] = [0xE8];
        assert(data@ =~= config_table()[5].1);
        let ghost before = self@;
        self.write_command_with_data(0x36, &data);
        proof {
            lemma_config_prefix(start, before, self@, 5);
        }
        // Interface pixel format: RGB565
        let data: [u8; 1] = [0x55];
        assert(data@ =~= config_table()[6].1);
        let ghost before = self@;
        self.write_command_with_data(0x3A, &data);
        proof {
            lemma_config_prefix(start, before, self@, 6);
        }
        // Interface mode control
        let data: [u8; 1] = [0x00];
        assert(data@ =~= config_table()[7].1);
        let ghost before = self@;
        self.write_command_with_data(0xB0, &data);
        proof {
            lemma_config_prefix(start, before, self@, 7);
        }
        // Frame rate control
        let data: [u8; 2] = [0xB0, 0x11];
        assert(data@ =~= config_table()[8].1);
        let ghost before = self@;
        self.write_command_with_data(0xB1, &data);
        proof {
            lemma_config_prefix(start, before, self@, 8);
        }
        // Display inversion control
        let data: [u8; 1] = [0x02];
        assert(data@ =~= config_table()[9].1);
        let ghost before = self@;
        self.write_command_with_data(0xB4, &data);
        proof {
            lemma_config_prefix(start, before, self@, 9);
        }
        // Display function control
        let data: [u8; 2] = [0x02, 0x02];
        assert(data@ =~= config_table()[10].1);
        let ghost before = self@;
        self.write_command_with_data(0xB6, &data);
        proof {
            lemma_config_prefix(start, before, self@, 10);
        }
        // Entry mode set
        let data: [u8; 1] = [0xC6];
        assert(data@ =~= config_table()[11].1);
        let ghost before = self@;
        self.write_command_with_data(0xB7, &data);
        proof {
            lemma_config_prefix(start, before, self@, 11);
        }
        // Adjust control 3
        let data: [u8; 4] = [0xA9, 0x51, 0x2C, 0x82];
        assert(data@ =~= config_table()[12].1);
        let ghost before = self@;
        self.write_command_with_data(0xF7, &data);
        proof {
            lemma_config_prefix(start, before, self@, 12);
        }
        assert(config_table().take(13) =~= config_table());
    }

    /// Sets the window of a clipped area and starts the pixel stream.
    fn open_window(&mut self, c: Rect)
        requires
            window_fits(c),
            !(c.width == 0 && c.height == 0),
        ensures
            final(self)@ == old(self)@ + window_steps(
                window_of(c).0,
                window_of(c).1,
                window_of(c).2,
                window_of(c).3,
            ) + start_pixels_steps(),
    {
        let x0 = #[verifier::truncate] (c.x as u16);
        let y0 = #[verifier::truncate] (c.y as u16);
        let x1 = x0 + #[verifier::truncate] (c.width as u16) - 1;
        let y1 = y0 + #[verifier::truncate] (c.height as u16) - 1;
        self.set_window(x0, y0, x1, y1);
        self.start_pixels();
    }

    /// Send `count` pixels of one colour: whole buffers of 240 pixels,
    /// then the rest.
    fn write_solid(&mut self, color: Color565, count: u32)
        ensures
            final(self)@ == old(self)@ + solid_steps(color, count as nat),
    {
        let ghost start = self@;
        let bytes = color.to_be_bytes();
        let full = count / PIXELS_PER_CHUNK;
        let remaining = count % PIXELS_PER_CHUNK;
        let ghost first = if full > 0 {
            seq![BusStep::WriteRepeated(pattern(color, 240), full as nat)]
        } else {
            Seq::<BusStep>::empty()
        };
        if full > 0 {
            let buf = pattern_vec(bytes, 240);
            self.push(BusOp::WriteRepeated(buf, full));
        }
        assert(self@ =~= start + first);
        if remaining > 0 {
            let buf = pattern_vec(bytes, remaining as usize);
            self.push(BusOp::Write(buf));
        }
        assert(self@ =~= start + solid_steps(color, count as nat));
    }

    /// Fills the whole panel with one colour.
    pub fn clear_screen(&mut self, color: Color565)
        ensures
            final(self)@ == old(self)@ + clear_screen_steps(color),
            bus_protocol_ok(old(self)@) ==> bus_protocol_ok(final(self)@),
    {
        let ghost start = self@;
        self.set_window(0, 0, 479, 319);
        self.start_pixels();
        let total_pixels: u32 = 480 * 320;
        self.write_solid(color, total_pixels);
        self.end_pixels();
        assert(self@ =~= start + clear_screen_steps(color));
        proof {
            lemma_clear_screen_protocol(color);
            if bus_protocol_ok(start) {
                lemma_protocol_append(start, clear_screen_steps(color));
            }
        }
    }

    /// One pixel in its own one-pixel window, if it lies on the panel.
    fn draw_pixel(&mut self, p: Pixel)
        ensures
            final(self)@ == old(self)@ + pixel_steps(p),
    {
        reveal(pixel_steps);
        let ghost start = self@;
        if p.x >= 0 && p.x < 480 && p.y >= 0 && p.y < 320 {
            let x = p.x as u16;
            let y = p.y as u16;
            self.set_window(x, y, x, y);
            self.start_pixels();
            let bytes = p.color.to_be_bytes();
            self.push(BusOp::Write(vec![bytes[0], bytes[1]]));
            self.end_pixels();
            assert(self@ =~= start + pixel_steps(p));
        } else {
            assert(self@ =~= start + pixel_steps(p));
        }
    }

    /// Sets each pixel that lies on the panel with its own one-pixel window.
    pub fn draw_iter(&mut self, pixels: &[Pixel])
        ensures
            final(self)@ == old(self)@ + pixels_steps(pixels@),
            bus_protocol_ok(old(self)@) ==> bus_protocol_ok(final(self)@),
    {
        let ghost start = self@;
        let mut i: usize = 0;
        while i < pixels.len()
            invariant
                i <= pixels@.len(),
                self@ == start + pixels_steps(pixels@.take(i as int)),
            decreases pixels@.len() - i,
        {
            let p = pixels[i];
            let ghost before = self@;
            self.draw_pixel(p);
            proof {
                assert(pixels@.take(i + 1) =~= pixels@.take(i as int).push(p));
                lemma_pixels_steps_push(pixels@.take(i as int), p);
                assert(self@ =~= start + pixels_steps(pixels@.take(i + 1)));
            }
            i += 1;
        }
        assert(pixels@.take(pixels@.len() as int) =~= pixels@);
        proof {
            lemma_pixels_protocol(pixels@);
            if bus_protocol_ok(start) {
                lemma_protocol_append(start, pixels_steps(pixels@));
            }
        }
    }

    /// Streams every given colour into the area clipped to the panel.
    pub fn fill_contiguous(&mut self, area: Rect, colors: &[Color565])
        requires
            area.corners_fit(),
            window_fits(clip(area)),
        ensures
            final(self)@ == old(self)@ + fill_contiguous_steps(area, colors@),
            bus_protocol_ok(old(self)@) ==> bus_protocol_ok(final(self)@),
    {
        let ghost start = self@;
        let c = intersection(area, Rect::new(0, 0, WIDTH, HEIGHT));
        if c.width == 0 && c.height == 0 {
            assert(self@ =~= start + fill_contiguous_steps(area, colors@));
            return;
        }
        self.open_window(c);
        let ghost head = self@;
        let mut i: usize = 0;
        while i < colors.len()
            invariant
                i <= colors@.len(),
                self@ == head + colors_steps(colors@.take(i as int)),
            decreases colors@.len() - i,
        {
            let bytes = colors[i].to_be_bytes();
            self.push(BusOp::Write(vec![bytes[0], bytes[1]]));
            i += 1;
            assert(self@ =~= head + colors_steps(colors@.take(i as int)));
        }
        assert(colors@.take(colors@.len() as int) =~= colors@);
        self.end_pixels();
        assert(self@ =~= start + fill_contiguous_steps(area, colors@));
        proof {
            lemma_fill_contiguous_protocol(area, colors@);
            if bus_protocol_ok(start) {
                lemma_protocol_append(start, fill_contiguous_steps(area, colors@));
            }
        }
    }

    /// Fills the area, clipped to the panel, with one colour.
    pub fn fill_solid(&mut self, area: Rect, color: Color565)
        requires
            area.corners_fit(),
            window_fits(clip(area)),
        ensures
            final(self)@ == old(self)@ + fill_solid_steps(area, color),
            bus_protocol_ok(old(self)@) ==> bus_protocol_ok(final(self)@),
    {
        let ghost start = self@;
        let c = intersection(area, Rect::new(0, 0, WIDTH, HEIGHT));
        if c.width == 0 && c.height == 0 {
            assert(self@ =~= start + fill_solid_steps(area, color));
            return;
        }
        proof {
            lemma_clip_on_screen(area);
        }
        self.open_window(c);
        assert(c.width * c.height <= 480 * 320) by (nonlinear_arith)
            requires
                c.width == 0 || c.height == 0 || (c.width <= 480 && c.height <= 320),
        ;
        let count = c.width * c.height;
        self.write_solid(color, count);
        self.end_pixels();
        assert(self@ =~= start + fill_solid_steps(area, color));
        proof {
            lemma_fill_solid_protocol(area, color);
            if bus_protocol_ok(start) {
                lemma_protocol_append(start, fill_solid_steps(area, color));
            }
        }
    }
}


/// A buffer of `n` pixels of the colour with bytes `bytes`.
fn pattern_vec(bytes: [u8; 2], n: usize) -> (v: Vec<u8>)
    requires
        n <= 240,
    ensures
        forall|c: Color565| c.bytes_spec() == bytes@ ==> v@ == pattern(c, n as nat),
{
    let mut v: Vec<u8> = Vec::new();
    let mut i: usize = 0;
    while i < n
        invariant
            i <= n <= 240,
            v@.len() == 2 * i,
            forall|k: int| 0 <= k < v@.len() ==> #[trigger] v@[k] == bytes@[k % 2],
        decreases n - i,
    {
        v.push(bytes[0]);
        v.push(bytes[1]);
        i += 1;
    }
    proof {
        assert forall|c: Color565| c.bytes_spec() == bytes@ implies v@ == pattern(c, n as nat) by {
            assert(v@ =~= pattern(c, n as nat));
        }
    }
    v
}

/// A clipped area that is not empty lies on the panel, and the one-sized
/// leftovers that the graphics library keeps have a corner on it.
pub proof fn lemma_clip_on_screen(area: Rect)
    requires
        area.corners_fit(),
    ensures
        !(clip(area).width == 0 && clip(area).height == 0) ==> {
            let c = clip(area);
            &&& 0 <= c.x < 480
            &&& 0 <= c.y < 320
            &&& !c.is_empty() ==> c.right() < 480 && c.bottom() < 320
        },
{
}


pub proof fn lemma_command_protocol(cmd: u8)
    ensures
        bus_protocol_ok(command_steps(cmd)),
{
    let s = command_steps(cmd);
    reveal_with_fuel(cs_low_at, 5);
    assert(cs_low_at(s, 2, false));
    assert forall|i: int| 0 <= i < s.len() implies write_ok(#[trigger] s[i], cs_low_at(s, i, false)) by {
    }
}

pub proof fn lemma_command_data_protocol(cmd: u8, data: Seq<u8>)
    ensures
        bus_protocol_ok(command_data_steps(cmd, data)),
{
    let s = command_data_steps(cmd, data);
    reveal_with_fuel(cs_low_at, 7);
    assert(cs_low_at(s, 2, false));
    assert(cs_low_at(s, 4, false));
    assert(padded(data).len() % 2 == 0);
    assert forall|i: int| 0 <= i < s.len() implies write_ok(#[trigger] s[i], cs_low_at(s, i, false)) by {
    }
}

pub proof fn lemma_window_protocol(x0: u16, y0: u16, x1: u16, y1: u16)
    ensures
        bus_protocol_ok(window_steps(x0, y0, x1, y1)),
{
    lemma_command_data_protocol(0x2A, coord_pair(x0, x1));
    lemma_command_data_protocol(0x2B, coord_pair(y0, y1));
    lemma_protocol_append(
        command_data_steps(0x2A, coord_pair(x0, x1)),
        command_data_steps(0x2B, coord_pair(y0, y1)),
    );
}

/// Pixel data only: whole 16-bit words, no chip-select changes.
pub open spec fn pixel_data(body: Seq<BusStep>) -> bool {
    forall|i: int|
        0 <= i < body.len() ==> match #[trigger] body[i] {
            BusStep::Write(b) => b.len() % 2 == 0,
            BusStep::WriteRepeated(b, _) => b.len() % 2 == 0,
            _ => false,
        }
}

proof fn lemma_no_cs_keeps(body: Seq<BusStep>, i: int)
    requires
        pixel_data(body),
        0 <= i <= body.len(),
    ensures
        cs_low_at(body, i, true),
    decreases i,
{
    if i > 0 {
        assert(match body[i - 1] {
            BusStep::Write(b) => b.len() % 2 == 0,
            BusStep::WriteRepeated(b, _) => b.len() % 2 == 0,
            _ => false,
        });
        lemma_no_cs_keeps(body, i - 1);
    }
}

/// A memory write, a stream of pixel data and the end of the stream keep
/// the bus discipline.
pub proof fn lemma_stream_protocol(body: Seq<BusStep>)
    requires
        pixel_data(body),
    ensures
        bus_protocol_ok(start_pixels_steps() + body + end_pixels_steps()),
{
    let st = start_pixels_steps();
    let en = end_pixels_steps();
    reveal_with_fuel(cs_low_at, 5);
    assert(cs_low_at(st, 2, false));
    assert(writes_framed(st, false)) by {
        assert forall|i: int| 0 <= i < st.len() implies write_ok(
            #[trigger] st[i],
            cs_low_at(st, i, false),
        ) by {}
    }
    assert(cs_low_after(st, false));
    assert(writes_framed(body, true)) by {
        assert forall|i: int| 0 <= i < body.len() implies write_ok(
            #[trigger] body[i],
            cs_low_at(body, i, true),
        ) by {
            lemma_no_cs_keeps(body, i);
        }
    }
    lemma_no_cs_keeps(body, body.len() as int);
    lemma_framed_concat(st, body, false);
    lemma_cs_after_concat(st, body, false);
    assert(writes_framed(en, true)) by {
        assert forall|i: int| 0 <= i < en.len() implies write_ok(
            #[trigger] en[i],
            cs_low_at(en, i, true),
        ) by {}
    }
    lemma_framed_concat(st + body, en, false);
    lemma_cs_after_concat(st + body, en, false);
    assert(!cs_low_after(en, true));
}

pub proof fn lemma_solid_is_pixel_data(c: Color565, count: nat)
    ensures
        pixel_data(solid_steps(c, count)),
{
    let s = solid_steps(c, count);
    assert forall|i: int| 0 <= i < s.len() implies match #[trigger] s[i] {
        BusStep::Write(b) => b.len() % 2 == 0,
        BusStep::WriteRepeated(b, _) => b.len() % 2 == 0,
        _ => false,
    } by {
        assert(pattern(c, 240).len() % 2 == 0);
        assert(pattern(c, count % 240).len() % 2 == 0);
    }
}

/// A windowed pixel stream keeps the bus discipline.
pub proof fn lemma_windowed_stream_protocol(
    x0: u16,
    y0: u16,
    x1: u16,
    y1: u16,
    body: Seq<BusStep>,
)
    requires
        pixel_data(body),
    ensures
        bus_protocol_ok(
            window_steps(x0, y0, x1, y1) + start_pixels_steps() + body + end_pixels_steps(),
        ),
{
    let w = window_steps(x0, y0, x1, y1);
    let rest = start_pixels_steps() + body + end_pixels_steps();
    lemma_window_protocol(x0, y0, x1, y1);
    lemma_stream_protocol(body);
    lemma_protocol_append(w, rest);
    assert(w + rest =~= w + start_pixels_steps() + body + end_pixels_steps());
}

pub proof fn lemma_clear_screen_protocol(c: Color565)
    ensures
        bus_protocol_ok(clear_screen_steps(c)),
{
    lemma_solid_is_pixel_data(c, 480 * 320);
    lemma_windowed_stream_protocol(0, 0, 479, 319, solid_steps(c, 480 * 320));
}

pub proof fn lemma_pixel_protocol(p: Pixel)
    ensures
        bus_protocol_ok(pixel_steps(p)),
{
    reveal(pixel_steps);
    if on_screen(p.x as int, p.y as int) {
        let body = seq![BusStep::Write(p.color.bytes_spec())];
        assert(pixel_data(body));
        lemma_windowed_stream_protocol(p.x as u16, p.y as u16, p.x as u16, p.y as u16, body);
    } else {
        assert(bus_protocol_ok(pixel_steps(p))) by {
            reveal_with_fuel(cs_low_at, 1);
        }
    }
}

pub proof fn lemma_pixels_protocol(ps: Seq<Pixel>)
    ensures
        bus_protocol_ok(pixels_steps(ps)),
    decreases ps.len(),
{
    if ps.len() == 0 {
        reveal_with_fuel(cs_low_at, 1);
    } else {
        lemma_pixels_protocol(ps.drop_last());
        lemma_pixel_protocol(ps.last());
        lemma_protocol_append(pixels_steps(ps.drop_last()), pixel_steps(ps.last()));
    }
}

proof fn lemma_framed_fill_protocol(area: Rect, body: Seq<BusStep>)
    requires
        pixel_data(body),
    ensures
        bus_protocol_ok(framed_fill(area, body)),
{
    let c = clip(area);
    if c.width == 0 && c.height == 0 {
        reveal_with_fuel(cs_low_at, 1);
    } else {
        let w = window_of(c);
        lemma_windowed_stream_protocol(w.0, w.1, w.2, w.3, body);
    }
}

pub proof fn lemma_fill_contiguous_protocol(area: Rect, colors: Seq<Color565>)
    ensures
        bus_protocol_ok(fill_contiguous_steps(area, colors)),
{
    let body = colors_steps(colors);
    assert(pixel_data(body));
    lemma_framed_fill_protocol(area, body);
}

pub proof fn lemma_fill_solid_protocol(area: Rect, color: Color565)
    ensures
        bus_protocol_ok(fill_solid_steps(area, color)),
{
    let c = clip(area);
    lemma_solid_is_pixel_data(color, (c.width * c.height) as nat);
    lemma_framed_fill_protocol(area, solid_steps(color, (c.width * c.height) as nat));
}

proof fn lemma_pixels_steps_push(ps: Seq<Pixel>, p: Pixel)
    ensures
        pixels_steps(ps.push(p)) == pixels_steps(ps) + pixel_steps(p),
{
    assert(ps.push(p).drop_last() =~= ps);
}

/// Any table of commands keeps the bus discipline.
pub proof fn lemma_commands_protocol(cmds: Seq<(u8, Seq<u8>)>)
    ensures
        bus_protocol_ok(commands_steps(cmds)),
    decreases cmds.len(),
{
    if cmds.len() == 0 {
        reveal_with_fuel(cs_low_at, 1);
    } else {
        lemma_commands_protocol(cmds.drop_last());
        lemma_command_data_protocol(cmds.last().0, cmds.last().1);
        lemma_protocol_append(
            commands_steps(cmds.drop_last()),
            command_data_steps(cmds.last().0, cmds.last().1),
        );
    }
}

pub proof fn lemma_init_protocol()
    ensures
        bus_protocol_ok(init_steps()),
{
    lemma_commands_protocol(config_table());
    let r = reset_steps();
    reveal_with_fuel(cs_low_at, 7);
    assert(bus_protocol_ok(r)) by {
        assert forall|i: int| 0 <= i < r.len() implies write_ok(#[trigger] r[i], cs_low_at(r, i, false)) by {}
    }

    let d1 = seq![BusStep::DelayMs(120)];
    let d2 = seq![BusStep::DelayMs(20)];
    assert(bus_protocol_ok(d1)) by {
        assert forall|i: int| 0 <= i < d1.len() implies write_ok(#[trigger] d1[i], cs_low_at(d1, i, false)) by {}
    }
    assert(bus_protocol_ok(d2)) by {
        assert forall|i: int| 0 <= i < d2.len() implies write_ok(#[trigger] d2[i], cs_low_at(d2, i, false)) by {}
    }
    lemma_command_protocol(0x11);
    lemma_command_protocol(0x29);

    lemma_protocol_append(r, config_steps());
    let a = r + config_steps();
    lemma_protocol_append(a, command_steps(0x11));
    lemma_protocol_append(a + command_steps(0x11), d1);
    lemma_protocol_append(a + command_steps(0x11) + d1, command_steps(0x29));
    lemma_protocol_append(a + command_steps(0x11) + d1 + command_steps(0x29), d2);
}

proof fn lemma_bytes_sent_single(x: BusStep)
    ensures
        bytes_sent(seq![x]) == match x {
            BusStep::Write(b) => b.len(),
            BusStep::WriteRepeated(b, n) => b.len() * n,
            _ => 0,
        },
{
    assert(seq![x].drop_last() =~= Seq::<BusStep>::empty());
    reveal_with_fuel(bytes_sent, 2);
}

/// A solid fill of `count` pixels sends exactly two bytes per pixel, and
/// each pair is the colour, most significant byte first.
pub proof fn law_solid_fill_sends_every_pixel(c: Color565, count: nat)
    ensures
        bytes_sent(solid_steps(c, count)) == 2 * count,
        forall|n: nat, i: int| 0 <= i < 2 * n ==> #[trigger] pattern(c, n)[i] == c.bytes_spec()[i % 2],
{
    let chunk = 240nat;
    let a: Seq<BusStep> = if count / chunk > 0 {
        seq![BusStep::WriteRepeated(pattern(c, chunk), count / chunk)]
    } else {
        Seq::empty()
    };
    let b: Seq<BusStep> = if count % chunk > 0 {
        seq![BusStep::Write(pattern(c, count % chunk))]
    } else {
        Seq::empty()
    };
    lemma_bytes_sent_concat(a, b);
    if count / chunk > 0 {
        lemma_bytes_sent_single(BusStep::WriteRepeated(pattern(c, chunk), count / chunk));
    }
    if count % chunk > 0 {
        lemma_bytes_sent_single(BusStep::Write(pattern(c, count % chunk)));
    }
    assert(bytes_sent(a) == 2 * chunk * (count / chunk)) by (nonlinear_arith)
        requires
            bytes_sent(a) == (if count / chunk > 0 { 2 * chunk * (count / chunk) } else { 0 }),
    ;
    assert(count == chunk * (count / chunk) + count % chunk) by (nonlinear_arith)
        requires
            chunk == 240,
    ;
}

/// Clearing the screen sends a pixel for each of the 480 x 320 pixels of
/// the panel after a window that covers it all.
pub proof fn law_clear_screen_covers_panel(c: Color565)
    ensures
        clear_screen_steps(c) == window_steps(0, 0, 479, 319) + start_pixels_steps()
            + solid_steps(c, 480 * 320) + end_pixels_steps(),
        bytes_sent(solid_steps(c, 480 * 320)) == 2 * 480 * 320,
{
    law_solid_fill_sends_every_pixel(c, 480 * 320);
}

/// The window of a fill covers exactly the clipped area, which lies on the
/// panel; a fill sends two bytes for each of its pixels.
pub proof fn law_fill_stays_on_screen(area: Rect, color: Color565)
    requires
        area.corners_fit(),
        window_fits(clip(area)),
        !clip(area).is_empty(),
    ensures
        ({
            let c = clip(area);
            let w = window_of(c);
            &&& w.0 == c.x && w.2 == c.right() && w.1 == c.y && w.3 == c.bottom()
            &&& w.0 <= w.2 < 480 && w.1 <= w.3 < 320
            &&& fill_solid_steps(area, color) == window_steps(w.0, w.1, w.2, w.3)
                + start_pixels_steps() + solid_steps(color, (c.width * c.height) as nat)
                + end_pixels_steps()
            &&& bytes_sent(solid_steps(color, (c.width * c.height) as nat)) == 2 * c.width
                * c.height
        }),
{
    lemma_clip_on_screen(area);
    let c = clip(area);
    assert(c.width <= 480 && c.height <= 320);
    assert(c.width as u16 == c.width && c.height as u16 == c.height);
    assert(c.x as u16 == c.x && c.y as u16 == c.y);
    assert(0 <= c.width * c.height <= 480 * 320) by (nonlinear_arith)
        requires
            c.width <= 480,
            c.height <= 320,
    ;
    law_solid_fill_sends_every_pixel(color, (c.width * c.height) as nat);
    assert(2 * ((c.width * c.height) as nat) == 2 * c.width * c.height) by (nonlinear_arith);
}

/// The two bytes of each coordinate give the coordinate back.
pub proof fn law_coordinates_round_trip(a: u16, b: u16)
    ensures
        coord_pair(a, b)[0] * 256 + coord_pair(a, b)[1] == a,
        coord_pair(a, b)[2] * 256 + coord_pair(a, b)[3] == b,
{
}


/// Sending the next setting of the table extends the settings sent so far.
proof fn lemma_config_prefix(start: Seq<BusStep>, before: Seq<BusStep>, now: Seq<BusStep>, k: int)
    requires
        0 <= k < 13,
        before == start + commands_steps(config_table().take(k)),
        now == before + command_data_steps(config_table()[k].0, config_table()[k].1),
    ensures
        now == start + commands_steps(config_table().take(k + 1)),
{
    let t = config_table();
    assert(t.take(k + 1).drop_last() =~= t.take(k));
    assert(t.take(k + 1).last() == t[k]);
    assert(now =~= start + commands_steps(t.take(k + 1)));
}


/// The raw RGB565 value of a colour as its two bus bytes, most significant
/// byte first.
pub open spec fn big_endian(raw: u16) -> Seq<u8> {
    seq![(raw / 256) as u8, (raw % 256) as u8]
}

/// A pixel on the panel is sent as a one-pixel window at its own position,
/// a memory write, its colour's two bytes most significant first, and the
/// end of the stream; a pixel off the panel sends nothing.
pub proof fn law_pixel_sent_big_endian(p: Pixel)
    ensures
        on_screen(p.x as int, p.y as int) ==> {
            let s = pixel_steps(p);
            let raw = raw565(p.color.r, p.color.g, p.color.b);
            &&& s.len() == 18
            &&& s.subrange(0, 12) == window_steps(p.x as u16, p.y as u16, p.x as u16, p.y as u16)
            &&& s[4] == BusStep::Write(padded(seq![
                (p.x / 256) as u8,
                (p.x % 256) as u8,
                (p.x / 256) as u8,
                (p.x % 256) as u8,
            ]))
            &&& s[10] == BusStep::Write(padded(seq![
                (p.y / 256) as u8,
                (p.y % 256) as u8,
                (p.y / 256) as u8,
                (p.y % 256) as u8,
            ]))
            &&& s[14] == BusStep::Write(seq![0u8, 0x2Cu8])
            &&& s[16] == BusStep::Write(big_endian(raw))
            &&& s[17] == BusStep::Cs(true)
        },
        !on_screen(p.x as int, p.y as int) ==> pixel_steps(p).len() == 0,
{
    reveal(pixel_steps);
    if on_screen(p.x as int, p.y as int) {
        let s = pixel_steps(p);
        let w = window_steps(p.x as u16, p.y as u16, p.x as u16, p.y as u16);
        assert(s.subrange(0, 12) =~= w);
        assert((p.x as u16) / 256 == p.x / 256 && (p.x as u16) % 256 == p.x % 256);
        assert((p.y as u16) / 256 == p.y / 256 && (p.y as u16) % 256 == p.y % 256);
        assert(coord_pair(p.x as u16, p.x as u16) =~= seq![
            (p.x / 256) as u8,
            (p.x % 256) as u8,
            (p.x / 256) as u8,
            (p.x % 256) as u8,
        ]);
        assert(coord_pair(p.y as u16, p.y as u16) =~= seq![
            (p.y / 256) as u8,
            (p.y % 256) as u8,
            (p.y / 256) as u8,
            (p.y % 256) as u8,
        ]);
        assert(p.color.bytes_spec() =~= big_endian(raw565(p.color.r, p.color.g, p.color.b)));
    }
}

/// Every byte of `b` is the byte of `raw`, most significant first, at the
/// same parity.
pub open spec fn repeats_pixel(b: Seq<u8>, raw: u16) -> bool {
    forall|i: int| 0 <= i < b.len() ==> #[trigger] b[i] == big_endian(raw)[i % 2]
}

/// A step sends only whole pixels of the colour `raw`.
pub open spec fn sends_only_pixel(step: BusStep, raw: u16) -> bool {
    match step {
        BusStep::Write(b) => repeats_pixel(b, raw),
        BusStep::WriteRepeated(b, _) => repeats_pixel(b, raw),
        _ => false,
    }
}

/// Every byte that a solid fill sends, in the whole buffers as in the rest,
/// is the colour's byte of the same parity: most significant byte at even
/// positions, least significant at odd ones.
pub proof fn law_solid_fill_is_one_colour(c: Color565, count: nat)
    ensures
        forall|k: int|
            0 <= k < solid_steps(c, count).len() ==> sends_only_pixel(
                #[trigger] solid_steps(c, count)[k],
                raw565(c.r, c.g, c.b),
            ),
{
    let s = solid_steps(c, count);
    let raw = raw565(c.r, c.g, c.b);
    assert(c.bytes_spec() =~= big_endian(raw));
    assert(repeats_pixel(pattern(c, 240), raw));
    assert(repeats_pixel(pattern(c, count % 240), raw));
    assert forall|k: int| 0 <= k < s.len() implies sends_only_pixel(#[trigger] s[k], raw) by {
        let a: Seq<BusStep> = if count / 240 > 0 {
            seq![BusStep::WriteRepeated(pattern(c, 240), count / 240)]
        } else {
            Seq::empty()
        };
        if k < a.len() {
            assert(s[k] == BusStep::WriteRepeated(pattern(c, 240), count / 240));
        } else {
            assert(s[k] == BusStep::Write(pattern(c, count % 240)));
        }
    }
}

/// A contiguous fill into an area that reaches the panel streams every
/// given colour, in order, each as its two bytes most significant first,
/// between the window with the memory write and the end of the stream.
pub proof fn law_fill_contiguous_streams_all(area: Rect, colors: Seq<Color565>)
    requires
        !(clip(area).width == 0 && clip(area).height == 0),
    ensures
        ({
            let s = fill_contiguous_steps(area, colors);
            &&& s.len() == 16 + colors.len() + 1
            &&& forall|i: int|
                0 <= i < colors.len() ==> #[trigger] s[16 + i] == BusStep::Write(
                    big_endian(raw565(colors[i].r, colors[i].g, colors[i].b)),
                )
            &&& s[15] == BusStep::Dc(true)
            &&& s[14] == BusStep::Write(seq![0u8, 0x2Cu8])
            &&& s[16 + colors.len() as int] == BusStep::Cs(true)
        }),
        fill_contiguous_steps(area, colors).len() == 0 <==> (clip(area).width == 0 && clip(
            area,
        ).height == 0),
{
    let s = fill_contiguous_steps(area, colors);
    assert forall|i: int| 0 <= i < colors.len() implies #[trigger] s[16 + i] == BusStep::Write(
        big_endian(raw565(colors[i].r, colors[i].g, colors[i].b)),
    ) by {
        assert(colors[i].bytes_spec() =~= big_endian(raw565(colors[i].r, colors[i].g, colors[i].b)));
    }
}

} // verus!
