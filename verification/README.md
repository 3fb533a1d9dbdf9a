# atomic_broadcast

The logic of an atomic-broadcast benchmark suite (Multi-Paxos, Paxos with
reconfiguration, VR-style leader election, and the benchmark clients), written
in Verus with its behaviour stated in contracts and proved.

Layout:

- `src/multipaxos/` — the Multi-Paxos roles (leader, acceptor, proxy leader,
  replica, batcher, participant), the classic round-robin round system, the
  log buffer and the wire formats of their messages.
- `src/abcast/` — the benchmark client and reconfiguration client, network
  partitions, the VR leader election, the Paxos replica glue, sequence
  transfer after a reconfiguration, and the wire formats of these messages.
- `src/experiment.rs`, `src/util.rs`, `src/naming.rs`, `src/summary.rs` —
  experiment parameters, their validation, I/O bookkeeping, names and summaries.
- `src/test_utils.rs` — the linearizability test for key-value histories;
  `src/linearization.rs` proves that it decides linearizability as defined
  directly (a real-time-respecting order in which every read returns the
  latest write).
- `src/wire.rs`, `src/text.rs` — byte buffers and text helpers shared by the rest.
- `app/` — configuration loading and result files (I/O, HOCON, time stamps,
  histograms), around the library.
- `tests/` — tests on concrete values.
