# sci_chain

The protocol logic of SCI Chain's agent sandbox, written in Verus and proved
against its contracts:

- `hook`, `classify`, `keychain`: the session-key checks an agent (AA)
  transaction goes through before it runs, in order — authorization of the
  session key, circuit breaker, call scope, spending-limit
  pre-flight with native value and sponsored gas metered against the
  `address(0)` sentinel — and the deductions applied once it ran;
- `agent_state`: the circuit-breaker precompile (only the breaker predeploy
  may trip or untrip a key; anyone may read);
- `dispatch`, `error`, `abi`: precompile call routing by selector and
  hardfork schedule, the error registry and the ABI payloads;
- `gas`, `storage_gas`, `precompile`, `zkvm`: gas accounting of the
  precompiles and their storage, the precompile result shape and how the
  host and the proof client interpret it;
- `handler`: the transaction handler's decisions (sponsored gas, routing,
  batch gas threading, post-execution metering);
- `aa`, `aa_codec`, `rlp`: the AA transaction (type `0x76`) and its RLP field
  encoding, whose decoder reads back exactly what the encoder writes;
- `tx_type`, `receipt`: transaction type identifiers and receipt fields of
  the compact storage form.

`app/` holds the host glue (conversions to alloy / revm types, the
alloy-rlp trait impls, and a driver that performs the flag reads and
writes the agent-state precompile asks for). The keychain storage, the
batch loop and the EVM handler plumbing that would drive the hook and the
batch decisions are not part of this crate. `tests/` exercises the library on concrete values.
