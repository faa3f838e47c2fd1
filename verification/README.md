# gdn_dispatch

The host side of the fused gated-DeltaNet decode step, verified with Verus: which
kernel is loaded, what is bound to which argument slot and for which access, and
with which grid and threadgroup it is dispatched.

- `src/gdn.rs`: the decode step itself, `call_gdn_decode_step_f32`.
- `src/encoder.rs`: an encoder that records commands, and what can be bound.
- `src/trace.rs`: what a sequence of recorded commands makes the device do.
- `src/laws.rs`: what holds of decode steps as a whole.
- `src/label.rs`, `src/size.rs`: debug labels; grid and threadgroup extents.
- `app/`: loads kernels and replays recorded commands on a device. Its Metal half
  is built on Apple platforms only.
