# sp1_sdk proof codec

A compact binary format for SP1 proofs, verifying keys, recursion witnesses
and program inputs, verified with Verus.

- `src/serialize.rs`: the `SerializeProof` trait. Each type states its wire
  format as two spec functions, `encode` and `parse`, and proves that parsing
  an encoding gives back the value. `to_bytes` and `from_bytes` are proved
  against them.
- `src/primitives.rs`, `src/tuples.rs`: integers (little-endian), booleans,
  strings (length-prefixed UTF-8), vectors (a `u32` length, then the
  elements), arrays and tuples (the elements, one after the other).
- `src/maps.rs`: chip orderings (a `hashbrown` map from chip names to
  indices), written as their entries sorted by name, or by index inside a
  shard proof; duplicate keys are refused on reading.
- `src/field.rs`, `src/proof_types.rs`, `src/inputs.rs`, `src/witness.rs`:
  BabyBear field elements and the proof, key and witness structures.
- `src/recursion.rs`, `src/settings.rs`: how recursion inputs are chosen and
  combined, and the plain settings of execution and proving actions.
- `src/laws.rs`: the properties that hold across functions.
- `app/`: writing to `Write`, reading from `Read`, conversions to and from the
  prover's own types, and the calls into the prover.
