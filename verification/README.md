# rpack_tools

Verified decision logic of three small Windows helpers:

- a screen color picker (reads `--format`, decides when to sample, decodes
  the sampled pixel and writes it as hex, `rgb(...)`, `hsl(...)` or all three);
- a taskbar volume controller (wheel over the taskbar changes the volume,
  middle click on the bare taskbar toggles mute);
- Alt + mouse gestures for Thorium browser tabs.

`src/` is the library, verified with Verus:

- `input.rs` — mouse-event words, key-state bits, synthetic key sequences
  (taps and combinations) and a model of which keys are held;
- `text.rs` — character-level helpers: trimming, ASCII case, decimal and
  hexadecimal output, UTF-16 encoding;
- `color_picker.rs`, `taskbar_volume.rs`, `thorium_tabs.rs` — the decisions
  of each helper.

`app/` holds the Win32 side of each helper (hooks, message loops, screen and
clipboard access, the floating-point HSL conversion); it calls into the
library for every decision. `tests/` exercises the library on concrete values.
