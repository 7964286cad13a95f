# openhcl_boot

Logging and crash reporting of the OpenHCL boot shim, verified with Verus.

- `src/hcl.rs`, `src/wire.rs`: the HCL error information page and its bytes.
- `src/message_writer.rs`: the crash message, cut to what fits and
  null-terminated.
- `src/arch.rs`: writing the error information page, physical address width,
  setting up and tearing down serial I/O.
- `src/boot_logger.rs`: where log text goes, and when. `src/boot_logger_laws.rs`
  states what holds of the boot logger over whole histories of calls, and
  `src/log_failure_laws.rs` what holds when its outputs fail.
- `src/rt.rs`: the stack cookie and the steps of the panic handler.
- `app/`: the part that touches the machine. It performs the actions that the
  library returns, on hardware that a `Platform` gives it.
- `tests/`: the library on concrete values.

The library trusts two outside crates, through the functions marked
`external_body`: `zerocopy` for little-endian integers as bytes
(`src/wire.rs`), and `log` for the names of levels (`src/boot_logger.rs`).
