# logweir

Restore drills for Kafka backups, and the identity that signs their evidence.

A drill restores a sample of a backup to a scratch cluster, compares what came
back with what was archived, measures how long it took, and signs the result as
a scorecard. The library decides; it performs no I/O. Whatever a decision needs
from outside is asked for, one question at a time: a function takes the answers
so far and gives back either the next question or the result.

- `src/drill/` runs a plan. `startup` holds the gates before a run, `run` the
  run itself as a state machine, and one module for each of its ten phases what
  that phase decides. `verdict` rolls the findings of phase 7 up, `report` and
  `notify` say what is told of an ending.
- `src/identity/` establishes a signing identity in a cluster exactly once, and
  hands it on to other namespaces.
- `src/engine_bin.rs`, `src/ids.rs`, `src/exit.rs`, `src/cli.rs` find the engine,
  name runs, and hold the exit codes and the rules of the command line.
- `src/text.rs`, `src/textmap.rs`, `src/namemap.rs`, `src/order.rs`,
  `src/clock.rs`, `src/encoding.rs` are the values that the rest is stated over.
- `app/` is the command: argument handling, files, HTTP, and a connector process
  for the Kafka client, the restore engine, the stores and the keys.
