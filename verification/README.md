# rho_call

Verified logic of two components of a zero-knowledge circuit for Ethereum:

- the rho step of Keccak, in which each lane is taken apart in base 13, chunk by
  chunk, and put together again in base 9, rotated;
- the `CALL` opcode, which turns one step of an execution trace into a list of
  operations on the state of the circuit input.

`src/` is the library. It does not touch a proving system: it lists what a circuit
is configured with and what is assigned to it, and the operations that a call
performs, as plain values. Every function states what it returns, and Verus proves
it. Numbers of any size are `num_bigint`'s; the functions that call it are in
`src/natural.rs`, with what is taken for granted of each.

- `rotation_laws.rs`: a lane that is run through all its chunks comes out rotated
  and converted.
- `rho_laws.rs`: what each gate means, and which of them the witness meets.
- `lane_laws.rs`: what a lane is configured with, and that the cells it assigns meet
  its gates and lookups.
- `call_laws.rs`: a call comes to an end, and shares out the gas of its step.

`app/` performs what the library lists, on `halo2_proofs` and on the state of a
circuit input.
