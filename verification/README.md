# glowbe

Runtime for a networked LED sphere: devices (ESP32 boards) receive frames over
UDP, report their status back, and are driven in one of several output modes
(loop clips, interactive pulses, text, the "mate" face, audio visualisation).

## Layout

- `src/` — the verified library (Verus). Each module states its behaviour in
  `requires` / `ensures` contracts over spec functions and views:
  - `wire` — FRAME packet encoding and STATUS datagram parsing;
  - `devices`, `state`, `device_slot`, `output` — the device registry, runtime
    state, per-device send decisions and status routing;
  - `media`, `media_jobs`, `source`, `clip`, `layouts` — clip and source
    bookkeeping, upload/convert job phases, layout catalogue;
  - `api`, `ws`, `text_api`, `mate_api` — request checks and the decisions that
    an HTTP and WebSocket front end takes (the program in `app/` has no such
    server yet);
  - `mate`, `audio`, `pattern`, `text_state`, `demos`, `config`, `metrics`,
    `strs` — the remaining domain logic and string helpers.
  The few calls into `std`, `uuid`, `image` and `zip` that the logic makes go through small
  trusted wrappers, each documented where it is declared.
- `tests/` — ordinary Rust tests run against the compiled library.
- `app/` — the program around the library: configuration and device files,
  mDNS discovery, the UDP output and STATUS loops, and command-line tools
  (`convert-image` for single images and ZIP frame archives,
  `mate-import-stamp`, `layouts`). It reads and writes files and
  sockets; decoding, checking and deciding happen in the library.
