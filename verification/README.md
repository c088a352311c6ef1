# rlbot_rust_compat

Glue between RLGym game states on the Python side and the Rust simulator
(rlgym-sim-rs / RocketSim) side.

Both sides exchange a game state as one flat vector of numbers: the game type,
the two scores, 34 boost pads, the ball and the inverted ball (nine values
each), then one 39-value packet per player. `src/` is the verified library:

- `layout` — offsets and lengths of that vector, and the number of whole
  player packets in a vector of a given length;
- `records` — the records the vector is made of, generic over the element
  type, with their flat forms;
- `codec` — encoding records into the vector and decoding them back, with the
  round-trip laws;
- `order` — the stable ordering of records by an integer key (players by car
  id), with its uniqueness law;
- `gym` — car ids and car flags of the gym-state conversion.

`app/` holds the Python bindings (pyo3) and the element conversions on
floating-point values, which call into the library.
