# zq

A per-application network monitor for macOS. A daemon redirects web traffic to
itself with packet-filter rules, finds out which application each connection
belongs to, and passes it on directly or through an upstream HTTP proxy. A
terminal client shows applications and flows and sets what goes where.

- `src/` is the library, verified with Verus: messages and their framing,
  configuration, the daemon's state and routing, the packet filter's queries and
  rules, the course of connections and sessions, and the client's state and
  screen.
- `app/` is the program around it: sockets, files, child processes, the terminal.
- `tests/` runs the library.

The library does no input or output. Where work outside is called for, a value
such as `forwarder::Bridge` or `pf_rules::RuleLoad` says what to do next and is
told how it went.

| module | what it holds |
| --- | --- |
| `text` | text over sequences of characters |
| `proto` | messages between the daemon and its clients |
| `codec` | length-prefixed frames |
| `config` | the configuration file |
| `table` | lists with keys, as maps |
| `hub`, `hub_laws` | the daemon's state |
| `forwarder` | the way to the upstream proxy |
| `net` | IPv4 endpoints |
| `pf`, `pf_rules` | the packet filter |
| `procinfo`, `process` | who owns a connection |
| `proxy` | redirected connections and their byte counts |
| `tui_server`, `client` | the two ends of a client's session |
| `startup` | waiting for a daemon that was just started |
| `status`, `install` | what the command line prints |
| `event`, `app`, `app_laws`, `ui` | the terminal client |
