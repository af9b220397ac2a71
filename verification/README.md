# zovia

A verifier for eBPF programs, and a proof in Verus that it does what it says.

A program is read from an object file, decoded, and analyzed instruction by
instruction. The analysis keeps bounds on the differences of registers (a zone),
or bounds on each register (an interval), together with the type of each
register. It refuses programs whose memory accesses it cannot show to be safe.

## Layout

- `src/domains` — zones, intervals, and the interface both share
- `src/machine` — registers, types of registers, stacks, frames, the state of a
  program, and what surrounds an analysis
- `src/ast`, `src/classic.rs` — instructions and kinds of programs
- `src/transfer` — what each instruction does to a state, and which memory
  accesses are allowed
- `src/compact` — an analysis of whole programs over twelve variables: its
  transfer functions, its fixed point, certificates of its results and a checker
  for them, and a proof that it is sound
- `src/parsing` — instruction streams, type information (BTF), object files
- `src/common` — constants, tables of context fields and kernel objects,
  settings, sample programs
- `src/benchmark`, `src/batch.rs`, `src/cli.rs` — directories of object files,
  reports, and options
- `app` — the command line program around the library
- `tests` — tests of the library

Functions named `law_…` state what holds of the library as a whole.

The library rests on a few functions of other crates and of the standard
library, each behind a small wrapper whose contract says what is relied on:
`goblin` reads object files, `serde_json` reads lists of labels, and texts are
lowered and extended by the standard library.
