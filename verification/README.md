# z80_rust

A Z80 instruction core whose behaviour is stated as contracts and proved
with Verus: every instruction (documented and undocumented flags, MEMPTR,
Q, R, prefix runs), the RESET / NMI / maskable-interrupt lifecycle, per
boundary trace records in JSON Lines, and the test harnesses around the
core (FUSE core tests, SingleStepTests cases, z80test programs).

## Layout

- `src/machine.rs`, `src/state.rs`, `src/flags.rs`: the CPU, its bus, its
  state as a value, and the fetch and register plumbing.
- `src/alu.rs`, `src/arith.rs`, `src/loads.rs`, `src/rotate.rs`,
  `src/control.rs`, `src/io.rs`, `src/blocks.rs`, `src/index.rs`: each
  instruction group as a spec function and the code proved to follow it.
- `src/dispatch.rs`, `src/index_dispatch.rs`, `src/cpu.rs`: decoding and
  `step`, whose contract is `step_outcome`.
- `src/trace.rs`, `src/json.rs`: boundary kinds and trace records.
- `src/laws.rs`: properties that span operations (priorities, timing,
  involutions, when a step faults).
- `src/text.rs`, `src/fuse.rs`, `src/fuse_run.rs`: the FUSE test format and
  runner; `src/vectors.rs`: single-step cases; `src/tap.rs`,
  `src/z80test.rs`: `.tap` files and headless z80test runs.
- `app/`: the command-line runners (file I/O, JSON decoding, printing).
