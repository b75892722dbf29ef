# razer-control-secureblue

Control of the Razer Blade 14 (2023) embedded controller over HID, built
around a verified core.

- `src/` — the library, checked by Verus: the device table and safety
  policy (`lib.rs`), the EC wire protocol and reply validation
  (`protocol.rs`), the line protocol of the daemon socket (`ipc.rs`), the
  persisted state file (`config.rs`), the daemon core (`daemon.rs`), the
  backends and the hidraw exchange decisions (`backend.rs`), telemetry
  computations (`telemetry.rs`), the desktop clients' parsing and decisions
  (`client.rs`), what the clients read back of the daemon's replies
  (`readback.rs`), the command-line decisions (`cli.rs`) and shared text
  handling (`text.rs`).
- `app/` — the `razer-control` program: argument handling, the Unix socket
  transport, hidraw access and the readers of `/proc`, `/sys` and
  `nvidia-smi`.
- `tests/` — scenario tests of the library.
