# cyborg_pallets

The logic of three Cyborg chain pallets, verified with Verus.

- `src/edge_connect.rs`: the connection to an edge server (CyberHub), the
  bounded lists of commands sent to it and responses received from it.
- `src/rewards.rs`: providers found connected, and the rewards paid to
  providers.
- `src/worker_registration.rs`: registration of worker clusters (one per
  account, consecutive ids), the off-chain index entry each registration
  leaves, and what the off-chain worker finds from it.
- `src/cluster_status.rs`: the status URL of a cluster and the outcome of a
  status request.
- `src/codec.rs`: the SCALE encodings stored and read back, through
  `parity-scale-codec`.
- `src/origin.rs`: call origins and dispatch errors.

Each pallet's storage is a value with a mathematical view; each dispatchable
call is a method whose contract gives the error (if any) and the new state as
spec functions of the old state and the arguments.  Failed calls leave the
state unchanged, and every call keeps the pallet's invariant.  The proof
functions at the end of each pallet file state the laws that relate calls.

`app/` holds the FRAME pallets that run this logic on chain: they read the
storage a call needs into the verified state, run the call, then write the
state back, deposit the event, and perform the off-chain worker's storage
reads and HTTP requests.
