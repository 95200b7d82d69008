# openmk3

Host library for the Native Instruments Maschine Mk3 controller, verified
with Verus.

- `src/` — the verified library: HID report parsing and LED report
  encoding (`proto`), the display pipeline with its dirty-tile tracker and
  command-stream encoder (`display`), event diffing with pad hysteresis
  (`device`), the NKS container framing (`nks`), plugin keys and resolution
  (`registry`), preset queries, scan bookkeeping and watcher debouncing
  (`index`), the browse screens and their 6×8 font (`ui`), the device-claim state machine
  (`platform`), the daemon's request, OSC and session logic (`daemon`) and
  the DriverKit wire structures (`dext_wire`).
- `app/` — the `openmk3` program: the `maschined` daemon (USB transport,
  display tasks, OSC/UDP, Unix-socket requests, SQLite index, plugin-host
  processes), and the `ctl` and `index` subcommands.
- `tests/` — tests of the library.
