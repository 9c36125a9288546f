# band_lighthshow

Operator console for the marching band light show: 32-channel RGB glasses driven over an
XBee radio behind an FTDI USB serial bridge.

- `src/` is the verified library (Verus):
  - `patterns`: packets, HSV colours, the rainbow drift, `rotate13` and the marquees;
  - `timing`: the named firmware delays, in milliseconds;
  - `catalog`: frames and shows, checked when the catalog is built;
  - `engine`: the show interpreter (`Player`) and its step semantics;
  - `runtime`: the `Sequencer` that turns keys, ticks and USB reports into packets and
    dashboard state;
  - `term`: the dashboard state and the command reference;
  - `xbee`: the wire framing of a packet;
  - `text`: building the operator's messages.
- `app/` is the program around it: command line, RON files on disk, the terminal
  dashboard, the FTDI device and the tasks that connect them.
- `tests/` runs the library on concrete values.

Time in the library is counted in milliseconds on a monotonic clock; the program derives
it from the moment it started.
