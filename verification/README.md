# oc_outpost

A Telegram bot that runs OpenCode instances in Docker containers, one per
forum topic, and relays messages between a topic and its instance.

The logic of the bot is a library proved correct with Verus:

- `src/markdown.rs`: Markdown to Telegram HTML, escaping, truncation and
  splitting of long messages;
- `src/commands.rs`: the slash-command grammar;
- `src/port_pool.rs`, `src/manager.rs`, `src/instance.rs`: port allocation and
  the lifecycle decisions of the instance manager (spawn, reuse, restart with
  backoff, idle stop, recovery and reconciliation);
- `src/stream.rs`, `src/integration.rs`: batching of the event stream, echo
  suppression, reconnection, and the routing of topic messages;
- `src/handlers/`: the answers of the bot commands and button presses;
- `src/config.rs`, `src/api.rs`, `src/client.rs`, `src/container.rs`,
  `src/discovery.rs`, `src/worktree.rs`: configuration, the registration API,
  endpoint URLs, container settings, process discovery and worktree naming.

Each public function states its result in its contract; the laws that tie
several functions together are public proof functions beside them.

`app/` is the process around the library: the Telegram dispatcher, SQLite
stores, the Docker runtime, HTTP calls and the event-stream subscriptions.
`tests/` runs the library on concrete values.
