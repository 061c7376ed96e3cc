# lethe

The decisions of Lethe, an agent that works in the background, as a verified
Verus library.

- `src/actor/`: the activity ledger with its seen-state, the actor registry,
  the background actor, and what becomes of a signal for the user.
- `src/scheduler/`: the heartbeat, what it sends and what it holds back.
- `src/interfaces/`: which browser stream a viewer is connected to.
- `src/tools/`: which tools a turn sees, may ask for and may run.
- `src/tui/`: what a frame of the terminal interface shows, and where.
- `src/text.rs`, `src/order.rs`, `src/json.rs`, `src/clock.rs`: what the rest is
  stated in.

Files named `laws.rs`, or ending in `_laws.rs`, hold what is proved of several
functions together. Calls into `chrono`, `serde_json` and `ratatui` stand behind
wrappers whose doc comments say what is taken on trust.

`app/` is the host: it reads and stores, talks to sockets, actors and the model,
paints the terminal, and performs what the library decides. `tests/` runs the
library.
