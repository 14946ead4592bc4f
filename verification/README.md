# pico_weather_clock

A weather clock for the Raspberry Pi Pico W with a Waveshare
Pico-ResTouch-LCD-3.5 (ILI9488) panel. The panel shows the time, the date,
the city, the current temperature and an hourly and daily forecast fetched
from a web service.

## Layout

- `src/` is the verified library (Verus):
  - `bus.rs` – bus steps of the panel (data/command, chip-select, reset,
    SPI transfers, delays) and the bus discipline every driver operation
    keeps.
  - `ili9488.rs` – the ILI9488 driver as a planner of bus steps: power-up,
    windows, solid and streamed fills, single pixels, inversion.
  - `geometry.rs`, `color.rs` – rectangles and RGB565 colours, with the
    two computations taken from embedded-graphics.
  - `text.rs` – the number formats of the screen (`{:0>2}`, `{:02}`, time
    and date).
  - `scene.rs` – the screen layout as a list of drawing commands.
  - `schedule.rs` – the refresh decisions of the display loop (theme,
    backlight, which areas to redraw).
  - `config.rs` – decimal build-time settings.
  - `model.rs` – clock and forecast values; the forecast keeps the
    fixed-capacity `heapless` vectors and strings of the firmware, read
    through a few trusted accessors.
- `app/` is the firmware around it: hardware set-up, Wi-Fi, HTTPS requests,
  JSON parsing, font rendering, and the tasks that carry out what the
  library decides.
- `tests/` runs the library on concrete values.
