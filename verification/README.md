# axiom_sovereign_stack

Low-latency building blocks, verified with Verus.

- `src/primitives`: the ZCSS first-in first-out ring, the BCP priority
  scheduler (one bit per level), the TSC-BEDR bounded deferred reclamation
  list, and the ZAH hopscotch index.
- `src/gate`: the predator gate, which validates order packets against the
  node authority and passes them through a ZCSS ring.
- `src/cosmic_queue.rs`: a bounded queue of packet frames held in a
  `crossbeam_queue::ArrayQueue`.
- `src/crypto`: the BSS syndrome decoder and the windowing of the BWP-MSM
  accumulator.
- `src/edge_ai.rs`: packing of 4-bit activation codes, two per byte.
- `src/ffi`: the argument checks, activation masks and errors of the
  Aethelarch ternary GEMV kernel; this build does not link the native library.
- `app/`: the floating-point stages (INT4 quantization, MSM accumulation,
  activation thresholds) and the error messages.

Each structure owns its state: operations that change it take `&mut self`.
