# sk_trace

Traces of Kubernetes clusters for SimKube: reading and writing them, walking over their events,
checking and changing their objects, and taking snapshots of a live cluster. The library is verified
with Verus.

- `src/trace.rs`: recorded traces, and what is accepted as one
- `src/trace_laws.rs`: what holds of them across operations
- `src/annotated_trace.rs`, `src/annotated_trace/validation.rs`, `src/validator.rs`: traces with the
  findings of the checks on them
- `src/annotated_laws.rs`: what holds of those across operations
- `src/snapshot.rs`: the steps of a snapshot
- `src/k8s.rs`, `src/event.rs`, `src/config.rs`, `src/index.rs`, `src/owner_map.rs`,
  `src/decimal.rs`: the data that traces are made of
- `app/`: the command line, the files and the cluster

Trusted without proof: the type of a MessagePack decoding error and that of a JSON patch operation,
which are carried and never looked into, and the clock.
