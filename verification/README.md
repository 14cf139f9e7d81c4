# herdr-caffeinate

Keeps macOS awake while at least one agent of a Herdr session is working, by
running `caffeinate -i -s -m` for as long as that is so.

The plugin connects to Herdr's Unix socket, `HERDR_SOCKET_PATH` or `/tmp/herdr.sock`. It subscribes
to the creation and the closing of panes, waits for the acknowledgement, takes a snapshot of the
session, and then watches the agent status of every pane over a socket of its own. It logs to
`herdr-caffeinate.log` in `HERDR_PLUGIN_STATE_DIR` or `~/.local/state/herdr-caffeinate`; `RUST_LOG`
sets the level.

## Layout

- `src/` decides everything: what is sent, what a line means, which panes are watched and whether
  `caffeinate` should run. It is verified with Verus.
  - `json`, `entries`, `text`, `codec`: JSON values, and the calls into `serde_json`
  - `model`, `decode`: Herdr's messages
  - `requests`, `replies`, `messages`: the lines that are sent and received
  - `statuses`, `monitor`, `driver`, `startup`, `launch`: the state of the plugin, step by step
  - `settings`: paths
  - `laws`: what holds of the library as a whole
- `app/` owns the sockets, the threads, the process and the log.
- `tests/` runs the library.
