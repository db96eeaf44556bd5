# minitel

A driver for real Minitel terminals (1B and compatibles) on a USB-UART
adapter plugged into the DIN peripheral socket, and the conversation daemon
built on it, with their behaviour stated as Verus contracts and proved.

## Layout

- `src/` — the verified library:
  - `constants`, `protocol`, `videotex`: protocol codes, raw Videotex
    sequences, text encoding (accents through G2, word wrap, G1 mosaic);
  - `input`: the decoder of the keyboard stream (keys, arrows, accents,
    protocol acknowledgements, identification);
  - `edit`: the multi-line input field projected on the 40x24 grid;
  - `link`: the decisions of the serial link (speed negotiation, probe
    answers, reconnection back-off);
  - `backend`: the requests to the backend and the reading of its answers;
  - `chat`, `session`: the daemon's screens and conversation thread, as a
    state machine from key events to bytes and requests;
  - `control`, `watch`: the daemon's control API and its periodic watchdog;
  - `demo`: the Videotex demo screens;
  - `remote`: the workstation's remote control (commands, field, journal,
    status line, HTTP exchange);
  - `chars`: small text helpers.
- `tests/` — tests of the library on concrete values.
- `app/` — the programs around it: serial port task, backend client, the
  `miniteld` daemon loop, the demo, the viewer and the terminal UI.
