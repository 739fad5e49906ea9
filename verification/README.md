# vapor

A minimal macOS menu bar system monitor, split into a verified library and a
thin program around it.

- `src/` — the library, verified with Verus:
  - `smc_param` — the 80-byte SMC parameter block: encoding, decoding (with
    round-trip laws) and the three requests the key protocol uses;
  - `fourcc` — four-character codes (`#KEY`, `sp78`, `flt `);
  - `smc` — the SMC key protocol (`call`, `get_key_info`, `read_key_bytes`,
    `read_key`, `key_count`, `key_at_index`) over a transport supplied by the
    program; `call`, the one function that calls the transport, keeps a
    ghost log of its exchanges, and each contract states which requests are
    sent, in which order, and what is made of the replies;
  - `temperature` — temperature decoding, sensor classification (`Tp..` CPU,
    `Tg..` GPU), the sensor-key cache and the cache of the process, built
    once and retried while connecting fails;
  - `metrics` — CPU load from tick snapshots, GPU utilisation, memory in use;
  - `statusbar` — toggles, box texts and box order;
  - `schedule` — when the event loop polls.
- `app/` — the program: IOKit / Mach / sysctl queries, AppKit drawing, the
  muda menu and the winit event loop. Floating-point conversions and the
  average of temperatures are done there.
- `tests/` — tests of the library, including a simulated SMC.
