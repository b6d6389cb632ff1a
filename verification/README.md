# drift_sdk

A verified library for clients of the Drift exchange program, written in Verus.

- `src/` is the library. It derives wallet addresses, answers queries on user accounts, decides what
  a client does on each network event, and puts transactions together. Every function is proved
  against its contract, except the wrappers in `solana`: what these say of the calls that they make
  is taken on trust.
  - `pubkey`, `types`, `constants`: addresses and their order, plain values, the table of markets.
  - `remaining`, `accounts`, `account_laws`: the accounts that an instruction has to name, and what
    holds of them for every instruction.
  - `orders`, `builder`, `transaction`: instructions and transactions.
  - `user`, `client`, `endpoint`: account data, queries, subscriptions, network addresses.
  - `wallet`: signing keys and derived addresses.
  - `solana`: the calls into `solana_sdk`, one wrapper each.
- `tests/` runs the library on concrete values, with `solana_sdk` linked.
- `app/` is the client on a live network: RPC and websocket connections, key files, and the
  encoding of the program's own interface.
