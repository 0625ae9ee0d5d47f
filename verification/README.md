# my_hdlc

Software for a small quadcopter and its ground station, with the logic
proved correct by Verus.

- `src/` is the verified library: the HDLC-style framing of messages
  (byte stuffing, a one-byte CRC-8, a ring-buffer receiver), the flight modes and
  their transitions, sensor calibration, the attitude and height filters,
  the fixed-point PID controller and motor mixing, the main loop's
  decisions (battery, commands, watchdog, telemetry schedule), the ground
  station's sending turns and the keyboard's commands. Fixed-point arithmetic, the CRC and the CORDIC cosine and arc
  tangent come from the `fixed`, `crc` and `cordic` crates behind trusted
  wrappers whose contracts are stated in `src/fixed_point.rs`,
  `src/checksum.rs` and `src/trig.rs`.
- `app/` holds what is not verified: the serde message types with their
  postcard framing, and the parts that compute in floating point.
- `tests/` runs the library on concrete inputs.
