# wio_examples

Verified logic for a set of Wio Terminal sketches, written in Verus.

- `src/` is the library, verified by Verus. It decides what the sketches
  draw and how sampled data flows: the two on-screen text terminals
  (`terminal`, `usb_terminal`, `mic_terminal`), the microphone sampler and
  spectrum display (`sampler`, `spectrum`), the statistics of the
  microphone sketch (`mic_stats`), the button rules (`buttons`) and the
  sensor read-outs (`readout`). Calls into `embedded-graphics`, `itoa` and
  `heapless` go through small trusted wrappers whose contracts restate
  what those crates' sources do.
- `tests/` runs the library on concrete values.
- `app/` is the firmware around it: hardware set-up, interrupts, USB, the
  LCD, and the floating-point parts (FFT, Hann window, decibels), which
  the library does not model. The library keeps drawing steps in `Vec`s,
  so the firmware needs an allocator.
