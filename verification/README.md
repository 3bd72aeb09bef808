# x8616-cycles

A cycle ticker for flat x86_16 programs. It loads a binary into a CPU core,
runs it until it executes HLT, and prints how many cycles that took. For the
80286, which has no core of its own, it runs the program on the NEC V30 and
reports the clock counts of the 80286 datasheet.

- `src/` is the library, verified with Verus: the command line, the placement
  of the program, the run as a dialogue with the core, the 80286 timing table,
  the result line, the memory dump and the local checks. The laws of each
  module are its public `law_` proof functions.
- `app/` drives the core, reads and writes files and starts processes. Called
  as `xtask` it runs the local checks.
- `tests/` holds the tests of the library.

Three things are taken on trust, all from the standard library: that
`String::push` appends one character, that `{:?}` on an optional string depends
on that string alone, and that `Path::parent` takes the last name off a path.
