# f1-term

A terminal dashboard for Formula 1 live timing. It follows the SignalR live
timing feed, keeps the session's state as one JSON document patched by the
feed's messages, reads the telemetry out of it (session, circuit flags,
drivers, teams, timing, tyre stints, race control, clock) and shows it as a
timing table, a race control log, a gap spread bar and a title bar.

## Layout

- `src/` is the library, verified with Verus:
  - `json.rs`, `merge_patch.rs`: JSON documents and JSON merge patches.
  - `client.rs`, `topic.rs`: the feed's protocol: handshake, subscription,
    message handling, addresses and cookies.
  - `parsing/`: each topic's JSON read into records.
  - `convert/`: records turned into the telemetry model (`model/`), including
    the circuit's flag status from the race control messages.
  - `extract.rs`: what a batch of messages changed, per topic.
  - `model/telemetry_state.rs`: the telemetry kept between updates and the
    grid in running order.
  - `tui/`: what each part of the screen shows and how it reacts to keys.
  - `text.rs`, `time.rs`, `url.rs`: text handling, and the calls into chrono,
    std and the url crate, each with its stated contract.
- `app/` is the program around it: the WebSocket and HTTP connection, the
  event loop, logging, drawing with ratatui, and the floating-point parts
  (weather readings, the spread bar).
- `tests/` runs the library on concrete feed data.
