# inclinometer

Firmware of a tilt meter: an SCL3300 inclinometer and a Sharp memory display share the SPI bus of an
nRF52840. The device greets, brings the sensor up, and then in pass after pass reads the three
angles and shows them, or shows why it could not.

The library under `src/` takes every decision and is verified with Verus; the program under `app/`
owns the hardware and carries the decisions out.

| module    | what it holds                                                                     |
|-----------|-----------------------------------------------------------------------------------|
| `crc`     | the checksum of a frame, and which disturbances it is bound to notice              |
| `frame`   | the fields of a frame, the commands, and what a response says                      |
| `sensor`  | the conversations that bring the sensor up and read it                             |
| `text`    | bounded text (`heapless::String`) and the lines that the display shows             |
| `clock`   | ticks, microseconds and milliseconds (`embassy_time::Duration`)                    |
| `display` | things to draw, and enlarged text (glyphs of `embedded_graphics`)                  |
| `ui`      | the two screens, which draw a field only when its text changes                     |
| `canvas`  | what the display shows, and that it agrees with the state of the screens           |
| `monitor` | the task that ties sensor and display together, one command and report at a time   |

`Cargo.toml` selects the host for `embassy-executor`, so that the library and the program build on a
workstation. A build for the board takes more than that: the executor's `arch-cortex-m` in place of
`arch-std`, the library on `core` and `alloc` in place of `std`, and a global allocator for the lists
of things to draw.
