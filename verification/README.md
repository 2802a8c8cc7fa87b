# bad-adit

The verified core of a menu-bar manager of SSH tunnels. Each tunnel forwards
a local port through `ssh -L` to a host on the remote side; a local proxy in
front of the forward counts the traffic.

- `src/` is the library, verified with Verus: tunnel configurations and
  their validation (`config`), the `ssh` command line (`ssh`), traffic
  counters and their snapshots (`stats`), byte and duration formatting
  (`format`), the bounded error log (`error_log`), the table of started
  tunnels and the status of every configured one (`tunnel`), the restarts
  of a tunnel whose ssh process ended (`reconnect`), the decisions of the
  proxy (`proxy`), the tray menu (`tray`) and notifications
  (`notify`). Text helpers live in `text`.
- `app/` is the Tauri application around it: processes, sockets, the
  configuration file, the tray and the commands of the web view.
- `tests/` exercises the library on concrete values.
