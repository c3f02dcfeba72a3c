# flightrelay

Flight Relay Protocol (FRP): golf launch monitor event streaming over WebSocket.

- `src/` is the verified library (Verus): the message model, unit-tagged
  values and their text form, the shot accumulator (`ShotAggregator`) with the
  laws of the shot lifecycle, and the decisions of the `start`/`init`
  handshake on both sides.
- `app/` is ordinary Rust around it: the JSON form of the messages (serde),
  unit conversions (floating point), and the synchronous WebSocket client and
  server (tungstenite).
- `tests/` runs the library on concrete values.

Real-valued measurements are held in the library by their IEEE 754 binary64
bit patterns; `app/` converts them to and from `f64`.

The shot accumulator keeps the in-flight shots in a `Vec` whose keys
`(device, shot_id)` are distinct (a type invariant), in place of a `HashMap`
with `String` keys; its view is a map from those keys to the shots.
Protocol versions are ranked by semantic-version precedence (pre-releases
included, build metadata ignored); the device answers a controller with the
highest version both support. Texts that are not semantic versions are
compared with nothing, so among them the controller's order decides.
