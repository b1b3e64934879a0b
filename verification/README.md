# metis_core

The rules of the Metis document workspace, written in Verus and proved against
their contracts: phase transitions, where documents are created and found,
the flight-level presets, the overlay storage used off the main branch, the
flat layout, the flush of pending changes, workspace detection, and the
status report.

## Layout

- `src/`: the verified library. Each module states its rules as spec
  functions, and each public function's `ensures` says what it returns in
  terms of them. Laws that span functions are public proof functions whose
  names start with `law_`.
- `tests/`: tests of the library on concrete values.
- `app/`: the `metis` command line. It reads and writes the disk and the git
  repository and hands what it finds to the library, which takes the
  decisions.

Outside crates are reached through a few trusted functions, each marked
`#[verifier::external_body]` and documented with the call it makes and what
its contract assumes.
