# Moreland

Turn a USB-connected Android tablet into a second monitor: a virtual output of
the compositor is captured, encoded in hardware and sent to the tablet over
`adb forward`; touches on the tablet come back as input.

- `src/` is the library: what the program decides, with contracts that Verus
  proves. Values in and out are plain, so that nothing in it waits, reads or
  writes. Only what is reckoned in floating point stands outside it: the cursor
  speed and the motion it gives, normalised touch coordinates, and rates and
  times as they are printed.
  - `protocol`, `corpus`: the wire format and its conformance corpus
  - `transport`: framing, accounting and `adb`
  - `encoder`: modifiers and the GStreamer pipelines, as data
  - `capture`: constraints, buffer pools, frames; KWin's streams
  - `daemon`: the command line, the rounds of the outer loop, one session from
    start to end, virtual outputs per compositor, touch and pointer input
  - `stats`, `probe`: what the measuring programs compute
  - `text`, `number`, `bytes`, `table`, `command`: what the rest is built from
- `tests/` runs the library.
- `app/` is the program around it: sockets, processes, Wayland, GStreamer,
  PipeWire, GBM and uinput. It carries out what the library asks for and hands
  back what came of it. The KWin backend is generated from the protocol
  description that `plasma-wayland-protocols` installs.
