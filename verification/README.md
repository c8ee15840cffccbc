# niri-dynamic-cursors

Dynamic cursor effects for the niri compositor: the cursor tilts, rotates or
stretches with its motion, and grows when it is shaken ("shake to find").

- `src/` is the verified library (Verus):
  - `history.rs`: the bounded, time-stamped record of cursor positions and the
    time windows over which velocity and shaking are measured;
  - `shake.rs`: the state machine that decides when a shake starts, how long it
    has lasted and when it ends;
  - `renderer.rs`: cursor image buffers, pixel reads and writes, and the
    raster loop that draws a transformed cursor;
  - `config.rs`: the cursor modes and activation curves.
- `app/` holds what the library does not: the TOML configuration (serde), and
  the floating-point geometry (speeds, angles, activation curves, shake
  intensity, magnification, rotation and scaling of the image).
- `tests/` exercises the library.
