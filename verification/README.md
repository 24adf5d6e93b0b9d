# miru_agent

The decision logic of the Miru device agent, written in Verus and proved against
its contracts: the deployment state machine and the sorting of stored deployments,
config-file path validation, the upload, retention and deletion queues and their
sweeps, the file scanner's bookkeeping, cache eviction, retry backoff, JWT framing,
base64 and RSA key handling, command-line parsing, and the shutdown order.

Layout:

- `src/` is the verified library. Each module states what its functions return in
  `ensures` clauses over mathematical views (`Seq`, `Set`, `Map`, `int`), and the
  properties that span several calls are public proof functions (`lemma_*`).
  Calls into `base64`, `pem-rfc7468`, `aws-lc-rs` and the system clock go through
  small trusted wrappers whose contracts say what those crates document. RSA keys are
  held as their DER bytes, so what is signed, fingerprinted or written out is tied
  to the key.
- `tests/` runs the library on concrete inputs.
- `app/` is the unverified shell around it: file-system access, clocks, random
  queue-entry ids, the async actors that drive the queues, the shutdown runner, and
  the serde forms of the persisted records.
