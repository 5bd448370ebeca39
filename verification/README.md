# tutti

The client of a terminal multiplexer for coding agents: a daemon owns the panes,
and `tutti` drives them from the command line or attaches a full-screen view.

- `src/` is the library. What the client decides is there, with contracts that
  Verus proves: how keys, the mouse and the daemon's frames change the client
  (`attach`), what the screen shows (`attach::render`), where panes lie
  (`layout`), the sidebar (`sidebar`), the configuration (`config`), the
  launcher (`launcher`), the commands and what they print (`cli`, `table`), and
  the hooks through which agents report (`hooks`).
- `app/` is the program around it: arguments, sockets, the terminal, the disk.
  It is built in a workspace that also holds `tutti-core`, the daemon's
  protocol, and `tutti-agents`, the catalogue of agents.
- `tests/` run the library.

The client asks about the world through `Query` values and is told the answers,
so everything it does follows from what it was handed. Outside crates are called
in few places, each behind a function whose doc comment says what is taken on
trust: `vt100` (`screen`), `toml` (`config`), `serde_json` (`json`) and the
column widths of `ratatui` (`attach::look`).
