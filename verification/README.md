# tt-rc-pro

Controller for the Thermaltake RC Pro case LCD (480×128, USB HID `264a:232a`): it reads
the machine's sensors, draws a frame of temperatures, loads, clock and an optional GIF,
encodes it as JPEG and sends it to the panel. A headless daemon drives the panel; a GUI
(`--gui`) shows a live preview in which elements are placed by dragging.

## Layout

- `src/` — the library, verified with Verus:
  - `config.rs`: element and bar identifiers, per-element settings, the defaults, which
    sensors the visible elements need, positions of draggable elements, hot reload;
  - `protocol.rs`: HID ioctl request numbers, feature reports, the initialisation and
    per-frame handshakes and when a failed step aborts them, and the cutting of a JPEG into 1024-byte output reports;
  - `link.rs`: the sending loop's decisions (first frame, failures, USB reset, the
    daemon's recovery);
  - `gif.rs`: GIF decoding (through the `image` crate) and time-based frame selection;
  - `sensor.rs`: which hwmon inputs to read (the GPU by its 100 °C limit), decoding
    of sysfs and FPS-hook contents, and the frame-time history;
  - `render.rs`: the drawing plan of a frame, colours, fonts, the boxes for picking
    elements with the mouse, JPEG encoding (through the `image` crate);
  - `text.rs`: whitespace, trimming, search and numerals as Rust's `str` defines them.
- `tests/` — tests of the library.
- `app/` — the program: command line, configuration file (TOML), sysfs and sysinfo
  reads, the HID device, drawing with `imageproc`/`ab_glyph`, the daemon loop and the GUI.

Sizes that the configuration file gives as floating-point numbers (font size, graph
maximum) are kept in the library in hundredths (`font_size_centi`, `max_ms_centi`).
