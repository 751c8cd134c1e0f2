# monolith

Verified core of a desktop monitor for well-cementing units. It decodes the
instrument's telemetry (CRLF-framed ASCII lines from a serial port, and
`DataYYYYMMDD_HHMM.csv` recordings), keeps loaded recordings in a cache, and
prepares chart series and live telemetry history for the front end.

- `src/` — the library, written in Verus and proved; its public functions
  carry contracts. Calls into `chrono`, `csv`, `uuid` and std that cannot be
  proved sit behind small trusted wrappers whose doc comments say what is
  assumed of them.
- `tests/` — tests of the library against concrete inputs.
- `app/` — ordinary Rust around the library: file and serial-port I/O, the
  reader threads, floating-point summaries, and serialisable copies of the
  library's types.

Real-valued readings are kept as the literal text that was validated against
the grammar of `f32::from_str`; the application converts them to `f32`.
