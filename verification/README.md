# emirates_id_reader

Reads the public identity data of Emirates ID contact chips through a PC/SC
reader, as a library whose logic is verified with Verus.

## Layout

- `src/` — the verified library.
  - `apdu.rs`: one ISO 7816 command exchange (`61xx` continuation, a single
    `6Cxx` length correction, the `6282` end-of-file warning for READ BINARY,
    a limit of 32 replies), as a state machine driven by the caller.
  - `protocol.rs`: a whole read as a state machine: application selection,
    public directory with fallback, required and optional files, chunked
    READ BINARY, and the final snapshot. Its laws show that every read ends,
    that only requested optional files are selected, and that a successful
    read yields a snapshot the builder accepts unchanged.
  - `decode.rs`: the TLV container format and the text, packed-BCD and date
    field codings.
  - `data.rs`: the snapshot types, their accessors (names, gender, grouped ID
    number), the builder, and redacted diagnostic text.
  - `report.rs`: the lines of the diagnostic read report, redacted by default.
  - `session.rs`: reader-name checks, which connection failure to report,
    presence and transaction outcomes.
  - `strings.rs`, `error.rs`: text helpers and the error type.
- `app/` — the PC/SC transport (through the `pcsc` crate), the `CardSession`
  API built on it, serde copies of the snapshot types, and the command line
  (`probe`, `read [--identity-only] [--show-personal-data]`).
- `tests/` — behaviour tests that run the library against synthetic cards.
