# stance_consensus

Unit creation and unit backup for a DAG-based BFT consensus protocol,
verified with Verus.

- `src/nodes.rs`: node indices and counts, and `NodeMap`, a map with one slot per node.
- `src/units.rs`: pre-units, units and signed units; their SCALE encoding
  through `parity-scale-codec`; the `Hasher` trait, whose digest is a spec
  function of the bytes, and `Fnv64`, a verified 64-bit FNV-1a hasher.
- `src/creator.rs`: `Creator`, which collects the units of each round and
  creates this node's unit of a round once floor(2N/3) + 1 units of the
  previous round, its own among them, are known; the laws of `add_unit`.
- `src/backup.rs`: the bytes of a backup, reading units back from them, and
  the checks a loaded backup must pass (consecutive rounds from 0, own
  creator, own session).
- `src/loading.rs`: the decisions of the loading mechanism as a state machine.
- `app/lib.rs`: the I/O around it: writing units to a `Write`, reading a
  backup from a `Read`, and the asynchronous loading mechanism over
  `futures` oneshot channels.
