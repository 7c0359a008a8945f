# mqtt_ac

A bridge between a CoolMaster air-conditioning controller (a line-based text
protocol over TCP) and an MQTT broker. Unit states read from the controller
are published as retained JSON messages; commands received over MQTT are
turned into controller commands.

- `src/` is the verified library (Verus): parsing of the controller's
  replies and unit-state lines, the command texts, the controller worker's
  state machine, the publisher's "publish only what changed" record, the
  requests that carry out an MQTT command, and the MQTT session settings.
  `text.rs` and `number.rs` hold the character-level pieces (fields, lines,
  trimming, `u16` and `f32` number syntax), each stated over `Seq<char>`.
- `app/` is the program around it: the TCP connection, the MQTT client,
  the channels and tasks, serde and the floating-point temperature values.
- `tests/` runs the library on concrete inputs.
