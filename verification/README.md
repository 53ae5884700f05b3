# cups_api

The logic of a CUPS print server add-on for Home Assistant, verified with Verus, and the
program that runs it.

- `src/text.rs` — text operations the server relies on (trimming, lines, splitting,
  searching, decimal numbers), each proved against a specification over character sequences.
- `src/patterns.rs` — compiled regular expressions (the `regex` crate) behind a small trusted
  interface that names what a match yields.
- `src/status.rs` — reading the printer status from the reports of `lpstat`, `cups-config`
  and the error log.
- `src/mqtt.rs` — finding the MQTT broker, the session options, the discovery and state
  messages, and the session loop as a state machine, with its laws.
- `src/server.rs` — the REST API port and address, the health answer, the scheduler's exit
  report.
- `src/setup.rs` — the file-system preparation as a plan of guarded steps, with its laws;
  reading the driver option from the options file (`serde_json`).
- `src/setup_model.rs` — a model of what the plan does to a file system, and the proof that
  running setup twice leaves the configuration as one run leaves it.
- `app/main.rs` — the program: runs the plan and the commands, serves the REST API (axum),
  talks to the supervisor (reqwest) and the broker (rumqttc), and serialises (serde).
