use pico_weather_clock::bus::BusOp;
use pico_weather_clock::color::Color565;
use pico_weather_clock::geometry::Rect;
use pico_weather_clock::ili9488::{Ili9488Display, Pixel};

fn cmd(c: u8) -> Vec<BusOp> {
    vec![BusOp::Dc(false), BusOp::Cs(false), BusOp::Write(vec![0, c]), BusOp::Cs(true)]
}

fn cmd_data(c: u8, data: &[u8]) -> Vec<BusOp> {
    let mut padded = Vec::new();
    for &b in data {
        padded.push(0);
        padded.push(b);
    }
    vec![
        BusOp::Dc(false),
        BusOp::Cs(false),
        BusOp::Write(vec![0, c]),
        BusOp::Dc(true),
        BusOp::Write(padded),
        BusOp::Cs(true),
    ]
}

fn window(x0: u16, y0: u16, x1: u16, y1: u16) -> Vec<BusOp> {
    let mut v = cmd_data(0x2A, &[(x0 >> 8) as u8, x0 as u8, (x1 >> 8) as u8, x1 as u8]);
    v.extend(cmd_data(0x2B, &[(y0 >> 8) as u8, y0 as u8, (y1 >> 8) as u8, y1 as u8]));
    v
}

fn start_pixels() -> Vec<BusOp> {
    vec![BusOp::Dc(false), BusOp::Cs(false), BusOp::Write(vec![0, 0x2C]), BusOp::Dc(true)]
}

fn pattern(hi: u8, lo: u8, n: usize) -> Vec<u8> {
    let mut v = Vec::new();
    for _ in 0..n {
        v.push(hi);
        v.push(lo);
    }
    v
}

#[test]
fn color_raw_packs_channels() {
    assert_eq!(Color565::new(31, 63, 31).raw(), 0xFFFF);
    assert_eq!(Color565::new(31, 0, 0).raw(), 0xF800);
    assert_eq!(Color565::new(0, 63, 0).raw(), 0x07E0);
    assert_eq!(Color565::new(0, 0, 31).raw(), 0x001F);
    assert_eq!(Color565::new(0, 0, 0).raw(), 0);
}

#[test]
fn color_raw_masks_wide_channels() {
    // Bits above each channel's width are dropped.
    assert_eq!(Color565::new(0xFF, 0, 0).raw(), 0xF800);
    assert_eq!(Color565::new(0x21, 0x41, 0x21).raw(), (1 << 11) | (1 << 5) | 1);
    assert_eq!(Color565::new(1, 2, 3).to_be_bytes(), [0x08, 0x43]);
}

#[test]
fn set_inverted_sends_inversion_commands() {
    let mut d = Ili9488Display::new();
    d.set_inverted(true);
    assert_eq!(d.take_ops(), cmd(0x21));
    d.set_inverted(false);
    assert_eq!(d.take_ops(), cmd(0x20));
    assert!(d.take_ops().is_empty());
}

#[test]
fn init_resets_then_configures() {
    let mut d = Ili9488Display::new();
    d.init();
    let ops = d.take_ops();
    let mut expected = vec![
        BusOp::Rst(true),
        BusOp::DelayMs(10),
        BusOp::Rst(false),
        BusOp::DelayMs(10),
        BusOp::Rst(true),
        BusOp::DelayMs(120),
    ];
    expected.extend(cmd_data(
        0xE0,
        &[0x00, 0x07, 0x0F, 0x0D, 0x1B, 0x0A, 0x3C, 0x78, 0x4A, 0x07, 0x0E, 0x09, 0x1B, 0x1E, 0x0F],
    ));
    expected.extend(cmd_data(
        0xE1,
        &[0x00, 0x22, 0x24, 0x06, 0x12, 0x07, 0x36, 0x47, 0x47, 0x06, 0x0A, 0x07, 0x30, 0x37, 0x0F],
    ));
    expected.extend(cmd_data(0xC0, &[0x10, 0x10]));
    expected.extend(cmd_data(0xC1, &[0x41]));
    expected.extend(cmd_data(0xC5, &[0x00, 0x22, 0x80]));
    expected.extend(cmd_data(0x36, &[0xE8]));
    expected.extend(cmd_data(0x3A, &[0x55]));
    expected.extend(cmd_data(0xB0, &[0x00]));
    expected.extend(cmd_data(0xB1, &[0xB0, 0x11]));
    expected.extend(cmd_data(0xB4, &[0x02]));
    expected.extend(cmd_data(0xB6, &[0x02, 0x02]));
    expected.extend(cmd_data(0xB7, &[0xC6]));
    expected.extend(cmd_data(0xF7, &[0xA9, 0x51, 0x2C, 0x82]));
    expected.extend(cmd(0x11));
    expected.push(BusOp::DelayMs(120));
    expected.extend(cmd(0x29));
    expected.push(BusOp::DelayMs(20));
    assert_eq!(ops, expected);
}

#[test]
fn clear_screen_streams_whole_panel() {
    let mut d = Ili9488Display::new();
    d.clear_screen(Color565::new(31, 0, 0));
    let mut expected = window(0, 0, 479, 319);
    expected.extend(start_pixels());
    expected.push(BusOp::WriteRepeated(pattern(0xF8, 0x00, 240), 640));
    expected.push(BusOp::Cs(true));
    assert_eq!(d.take_ops(), expected);
}

#[test]
fn fill_solid_clips_to_panel() {
    let mut d = Ili9488Display::new();
    d.fill_solid(Rect::new(470, 310, 20, 20), Color565::new(0, 0, 31));
    let mut expected = window(470, 310, 479, 319);
    expected.extend(start_pixels());
    expected.push(BusOp::Write(pattern(0x00, 0x1F, 100)));
    expected.push(BusOp::Cs(true));
    assert_eq!(d.take_ops(), expected);
}

#[test]
fn fill_solid_sends_whole_buffers_and_rest() {
    let mut d = Ili9488Display::new();
    d.fill_solid(Rect::new(0, 73, 300, 1), Color565::new(0, 0, 0));
    let mut expected = window(0, 73, 299, 73);
    expected.extend(start_pixels());
    expected.push(BusOp::WriteRepeated(pattern(0, 0, 240), 1));
    expected.push(BusOp::Write(pattern(0, 0, 60)));
    expected.push(BusOp::Cs(true));
    assert_eq!(d.take_ops(), expected);
}

#[test]
fn fill_solid_off_screen_sends_nothing() {
    let mut d = Ili9488Display::new();
    d.fill_solid(Rect::new(500, 10, 20, 20), Color565::new(1, 1, 1));
    d.fill_solid(Rect::new(10, 10, 0, 0), Color565::new(1, 1, 1));
    d.fill_solid(Rect::new(-30, -30, 10, 10), Color565::new(1, 1, 1));
    assert!(d.take_ops().is_empty());
}

#[test]
fn fill_contiguous_streams_every_colour() {
    let mut d = Ili9488Display::new();
    let colors = [Color565::new(31, 0, 0), Color565::new(0, 63, 0), Color565::new(0, 0, 31)];
    d.fill_contiguous(Rect::new(-5, 2, 7, 1), &colors);
    let mut expected = window(0, 2, 1, 2);
    expected.extend(start_pixels());
    expected.push(BusOp::Write(vec![0xF8, 0x00]));
    expected.push(BusOp::Write(vec![0x07, 0xE0]));
    expected.push(BusOp::Write(vec![0x00, 0x1F]));
    expected.push(BusOp::Cs(true));
    assert_eq!(d.take_ops(), expected);
}

#[test]
fn draw_iter_skips_pixels_off_panel() {
    let mut d = Ili9488Display::new();
    let c = Color565::new(31, 63, 31);
    let pixels = [
        Pixel { x: -1, y: 0, color: c },
        Pixel { x: 300, y: 200, color: c },
        Pixel { x: 480, y: 0, color: c },
        Pixel { x: 0, y: 320, color: c },
    ];
    d.draw_iter(&pixels);
    let mut expected = window(300, 200, 300, 200);
    expected.extend(start_pixels());
    expected.push(BusOp::Write(vec![0xFF, 0xFF]));
    expected.push(BusOp::Cs(true));
    assert_eq!(d.take_ops(), expected);
}

#[test]
fn every_transfer_is_word_aligned_and_framed() {
    let mut d = Ili9488Display::new();
    d.init();
    d.clear_screen(Color565::new(0, 0, 0));
    d.fill_solid(Rect::new(10, 10, 100, 50), Color565::new(3, 4, 5));
    d.set_inverted(true);
    let mut selected = false;
    for op in d.take_ops() {
        match op {
            BusOp::Cs(level) => selected = !level,
            BusOp::Write(b) | BusOp::WriteRepeated(b, _) => {
                assert!(selected);
                assert_eq!(b.len() % 2, 0);
            }
            _ => {}
        }
    }
    assert!(!selected);
}

#[test]
fn panel_size_is_landscape() {
    let d = Ili9488Display::new();
    assert_eq!(d.size(), (480, 320));
}
