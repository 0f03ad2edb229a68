# plato_sim_channel

Typed message channels that bridge simulated and live environments, written and
verified in Verus.

- `src/kind.rs`: adapter modes, and channel kinds with their numbers and names
- `src/score.rs`: quality scores, as bit patterns of single-precision numbers
- `src/clock.rs`: nanosecond timestamps
- `src/message.rs`: messages
- `src/model.rs`: the mathematical model of an adapter and of its operations
- `src/adapter.rs`: `ChannelAdapter`, proved against the model
- `src/layer.rs`: the `ChannelLayer` trait
- `src/laws.rs`: what holds of an adapter as a whole
- `app/`: scores as `f32`

The one thing that is trusted beside the verifier's standard library is the
reading of the system clock, in `src/clock.rs`.
