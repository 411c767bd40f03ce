# frame_pallets

Verified pieces of the message-queue and nomination-pool pallets, written in
Verus.

- `src/weight.rs`: the two-component weight of an operation.
- `src/weights.rs`: the weight functions of the message queue (`WeightInfo`,
  `SubstrateWeight`, the `()` weights, `WeightMetaInfo`).
- `src/scale.rs`: the SCALE encoding of the `u32` and `bool` of an item header,
  taken from `parity-scale-codec`.
- `src/page.rs`: a message page, its heap of item headers and payloads, and the
  laws that relate its operations.
- `src/pool_bench.rs`: what the nomination-pool benchmark helpers decide, with
  the set-up of the worst-case bags-list scenario as a state machine.
- `app/`: the runtime-facing side: conversion to the runtime's weight type and
  the loop that runs the benchmark set-up against a runtime.
