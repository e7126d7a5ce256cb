# raft_queue

A small replicated queue. Each node keeps a log of queue operations; the
leader appends a client's enqueue or dequeue to its log, sends it to its
followers, and commits it (applies it to the queue and tells the followers to
do the same) once more than half of them have accepted. Followers that miss
the leader's heartbeats stand for election.

Layout:

- `src/` — the verified library (Verus): the node state and every decision
  the node takes.
  - `operation.rs` — log entries and their mathematical views.
  - `node.rs` — the node state, start-up, heartbeats sent by a leader,
    elections.
  - `routes/` — what a node does with each request it receives
    (`operation`, `heartbeat`, `request_vote`, `register`, `execute`,
    `ok_post`).
  - `repair.rs` — a leader's round of sending a request to its peers
    (`Replication`: which replies acknowledge, which start a repair) and the
    repair itself (`LogRepair`: each retry carries one more earlier entry and
    names the entry before those it carries).
  - `client.rs`, `dashboard.rs` — the command-line client's reading of a
    line, and the terminal dashboard's node file and key handling (the node
    file's CSV is read by the `csv` crate behind one trusted wrapper).
  - `laws.rs` — properties that span several operations.
  - `args.rs` — the port a node takes from its first argument.
  - `text.rs` — decimal formatting and reading of integers; `random.rs` —
    the one call into `rand`.
  - Times are nanoseconds since the Unix epoch, spans are nanoseconds.
- `app/` — the program around it: HTTP server and client, the clock, JSON,
  the terminal. `app/main.rs` runs a node (`<port> [<leader address>]`),
  the client (`client`) or the dashboard (`dashboard`).
- `tests/` — tests of the library.
