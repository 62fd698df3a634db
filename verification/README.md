# keel

Keel is a small protocol for content-addressed model artifacts, prepaid compute
("millicredits"), signed peer advertisements and invites, and Lightning payments
that mint credits. This crate holds its wire types and the rules a node and its
clients follow, written in Verus and proved against their contracts.

Layout:

- `src/` — the verified library: content ids and signatures (`identity`,
  `envelope`), canonical JSON (`json`), credit accounting (`metering`,
  `ledger`), jobs (`job`, `jobs`, `inference`), peers and addresses (`peer`,
  `peers`, `multiaddr`), signed documents (`artifact`, `discovery`, `runner`,
  `documents`), payments (`settlement`, `lightning`, `lnd`), client-side rules
  (`client`), and the blob store's layout (`blob`). Calls into `sha2`,
  `ed25519-dalek`, `hex`, `base64`, `serde_json`, `lightning-invoice`,
  `bitcoin` and `getrandom` go through small trusted wrappers in the modules
  that use them.
- `app/` — the program around it: the SQLite-backed node, its HTTP API, the
  HTTP client, LND's REST calls, and the command line.
- `tests/` — tests of the library.
