# t2fanrd

A fan daemon for Macs with the T2 chip, written as a Verus-verified library
(`src/`) and a thin program around it (`app/`).

- `src/ring_buffer.rs` — a bounded double-ended queue that evicts at the far
  end when full, with its laws (push/pop inverses, no item lost, keeps the
  latest items).
- `src/temperature.rs` — the sliding-window average of the sensor readings
  that decides when the fans are driven again; reading a sensor's text.
- `src/fan_controller.rs` — per-fan decisions: the speed plan for a
  temperature, clamping and de-duplicating speed writes, settling windows,
  judging a measured speed; the paths of a fan's sysfs files.
- `src/config.rs` — the fan configuration and reading it from the INI file.
- `src/discovery.rs` — recognising the Apple SMC device and its fans.
- `src/text.rs`, `src/error.rs` — text parsing and the error types.

`app/` reads and writes the sysfs files, evaluates the floating-point speed
curves and tolerance factors, handles signals and the lock file, and runs
the main loop.
