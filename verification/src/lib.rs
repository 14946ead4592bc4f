//! Verified core of a Raspberry Pi Pico weather clock: the ILI9488 panel
//! protocol, the screen layout of clock and forecast, number formatting and
//! the refresh schedule of the display loop.

pub mod bus;
pub mod color;
pub mod config;
pub mod geometry;
pub mod ili9488;
pub mod model;
pub mod scene;
pub mod schedule;
pub mod text;
