use vstd::prelude::*;

use embedded_graphics::pixelcolor::raw::{RawData, RawU16};
use embedded_graphics::pixelcolor::Rgb565;

verus! {

/// A 16-bit RGB565 colour given by its channels: red and blue in 5 bits,
/// green in 6 bits. Bits above a channel's width are ignored.
#[derive(Clone, Copy, Debug, PartialEq, Eq, Structural)]
pub struct Color565 {
    pub r: u8,
    pub g: u8,
    pub b: u8,
}

/// The RGB565 bit pattern: red in bits 11..16, green in 5..11, blue in 0..5.
pub open spec fn raw565(r: u8, g: u8, b: u8) -> u16 {
    ((r % 32) * 2048 + (g % 64) * 32 + (b % 32)) as u16
}

/// `RawU16::from(Rgb565::new(r, g, b)).into_inner()` of embedded-graphics:
/// the channels are masked to 5, 6 and 5 bits and packed red-green-blue
/// from the most significant bit down.
#[verifier::external_body]
fn rgb565_raw(r: u8, g: u8, b: u8) -> (raw: u16)
    ensures
        raw == raw565(r, g, b),
{
    RawU16::from(Rgb565::new(r, g, b)).into_inner()
}

impl Color565 {
    pub open spec fn raw_spec(self) -> u16 {
        raw565(self.r, self.g, self.b)
    }

    /// Big-endian bytes of the pixel as they travel on the bus.
    pub open spec fn bytes_spec(self) -> Seq<u8> {
        seq![(self.raw_spec() / 256) as u8, (self.raw_spec() % 256) as u8]
    }

    pub fn new(r: u8, g: u8, b: u8) -> (c: Color565)
        ensures
            c == (Color565 { r, g, b }),
    {
        Color565 { r, g, b }
    }

    /// The raw 16-bit value of the colour.
    pub fn raw(&self) -> (v: u16)
        ensures
            v == self.raw_spec(),
    {
        rgb565_raw(self.r, self.g, self.b)
    }

    /// The two bytes of the pixel, most significant first.
    pub fn to_be_bytes(&self) -> (bytes: [u8; 2])
        ensures
            bytes@ == self.bytes_spec(),
    {
        let v = self.raw();
        let bytes = [(v / 256) as u8, (v % 256) as u8];
        assert(bytes@ =~= self.bytes_spec());
        bytes
    }
}

} // verus!
