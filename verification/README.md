# push_gateway

The logic of Push, a gateway that hands chat messages to coding agents and delivers their replies,
as a library whose behaviour is stated in contracts and proved with Verus.

- `src/chunk.rs`, `src/text.rs`, `src/number.rs`: text in pieces, searched, trimmed and as numbers.
- `src/gateway/`: what happens to one message. `turn.rs` is the course of a message from the queue
  to a delivered reply, with its laws in `turn_laws.rs`; `run.rs` a run of a backend with recovery
  of its session; `delivery.rs` the delivery of a recorded reply; `voice.rs` and `files.rs` what
  comes with a message; `commands.rs`, `jobs.rs` and `reminders.rs` the chat commands; `clock.rs`
  local time and `duration.rs` durations.
- `src/mattermost/`: the Mattermost channel. `event.rs` says which posts reach the agent, `inbox.rs`
  holds them, `client.rs` is what the channel knows, `http.rs` and `receiver.rs` how it talks to the
  server, `target.rs` and `thread.rs` where messages belong.
- `app/`: the drivers, which do the network, the disk and the clock.

What takes several steps outside the library is a state machine: it says what is done next, its
driver does it and reports back. A text type `S` in such a type is `String` in the program and a
sequence of characters in contracts.

Trusted are only the calls into `chrono`, `humantime`, `serde_json` and the standard library that
the functions marked `external_body` make; each says what it claims of the call.
