# discord-role-restore

A Discord bot that saves the roles of members who leave a server and gives
them back when they rejoin, within rules that each server configures with
`/setup`: safe roles, avoid roles, a log channel, and whether admin roles may
be handed out again.

## Layout

- `src/` — the verified library (Verus):
  - `decimal.rs` — decimal text of ids, rendering and parsing;
  - `role_codec.rs` — the JSON text in which role lists are stored (serde_json);
  - `guild_config.rs` — a server's configuration, its columns and defaults,
    and the rule that keeps the safe and avoid lists apart;
  - `role_filter.rs` — which saved roles may be given back;
  - `access.rs` — who may use `/setup` and its controls, and routing;
  - `selection.rs` — what was chosen in a select menu;
  - `panel.rs` — everything the setup panel shows;
  - `rejoin.rs` — the restoration of a rejoining member as a state machine;
  - `server_state.rs` — the health check's last ping.
- `app/` — the bot itself: Discord and SQLite I/O and the health check server,
  driving the library.
- `tests/` — tests of the library.
