# agritrust

Verified contract logic for trust streams on Soroban, written in Verus.

`src/` is the library, every function proved against its contract:

- `dead_mans_switch`: admin recovery by a vault after 180 days of inactivity;
- `compliance`, `zk_kyc`: sanction, flag and KYC registries kept by an officer or verifier;
- `donor_reputation`: donor success rates, reputation scores, linear influence
  multipliers and an audit trail;
- `matching_pool`: quadratic-funding pools, reputation-weighted donations with a
  per-donor limit, the matching computation and one-time payout, with an integer
  square root proved exact;
- `table`, `address`, `newton`: keyed storage tables, ledger addresses and the
  facts about Newton steps behind the square root.

Each contract is a state value; its operations take the ledger time and the
caller's identity as arguments and state the resulting state exactly. Laws
relating operations are public proof functions named `law_*`.

`app/` holds the Soroban contracts: they load the storage entries an operation
reads, run the library operation, write the entries back, and handle
authorization, events and token transfers. `tests/` exercises the library.
