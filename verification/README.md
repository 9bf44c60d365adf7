# osh_tools

Remote command execution through a relay: a relay service routes commands
from the `osh` client to daemons running on remote devices, `osh-admin`
manages the list of devices, and a tray front end (not built here: its
system-tray crates are not part of this crate's dependencies) shows the
daemon's state.

The library (`src/`) holds the logic, verified with Verus:

- `codec`, `text`, `terminal`: payload encoding, text helpers, escape-sequence
  filtering, control-byte escaping and line-ending conversion.
- `lookup`, `cli_protocol`, `cli_config`, `cli_listing`, `cli_exec`: device
  lookup, the admin edits and device table, and the decisions of an `osh`
  session.
- `daemon_protocol`, `daemon_logic`, `process_logic`, `process_table`: the
  daemon's messages, pairing and command handling, reconnection back-off,
  heartbeats, PTY reader decisions and the table of running processes.
- `device_store`, `relay_protocol`, `relay_tables`, `relay`: the relay's
  device list, its tables of clients and sessions, and its routing.
- `tray_status`: how the tray front end reads the daemon's status, its icon
  and labels (the decisions only; `app/` holds no tray program).

`app/` is the program around it (WebSocket servers and clients, files,
processes, terminals), and `tests/` runs the library on concrete cases.
