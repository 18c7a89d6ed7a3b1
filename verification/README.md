# runter

The core of the runter messaging stack, written in Verus and verified.

- `src/protocol`: the relay protocol. Queues (push, pull with a delivery
  cursor, acknowledgements, cleanups), sessions (nonce bookkeeping and
  replay protection), the handshake and authentication, frame lengths,
  and the relay's state machine over its queue, name and session tables.
- `src/crypto`: AES-256-GCM, HKDF, HMAC, Ed25519 and X25519 keys, X3DH
  and the double ratchet, with the outside primitives behind small trusted
  wrappers whose contracts name their results.
- `src/database`: the write-ahead log's byte format (header, framing,
  checksums, indices), sequence reservations, the materialized keys, and
  the entries a batch of messages or acknowledgements becomes.
- `src/server`: the replication server's bookkeeping: fencing epochs,
  partition ownership and work assignment, retries with capped
  exponential backoff, dead letters, checkpoints, the consumer's batch
  selection and the worker's decisions.
- `app/`: the unverified I/O around it: TCP framing, the asynchronous
  relay front end, files, SQLite and RocksDB, Prometheus metrics, and the
  server's tasks.
- `tests/`: tests of the library on concrete values.
