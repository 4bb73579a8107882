# vps

A native window onto a real TTY on a remote host, reached only through SSH.
`vpsd` owns the PTYs on the remote host and listens on a Unix socket only;
`vps` lists its sessions in a small picker window and opens the user's
terminal emulator on `ssh -tt HOST vpsd attach --id N | --new`.

## Layout

- `src/` — the verified library (Verus):
  - `protocol` — control messages and the listen-address policy (never a
    network address);
  - `hub` — the daemon's session table: ids, attach state, bounded
    scrollback, TUI detection, replay on reattach;
  - `session` — the attach path's decisions: the request a client makes,
    control-line reading, how a splice ends;
  - `screen` — the emulated screen of a session (alacritty_terminal) and its
    ANSI dump;
  - `procinfo` — what is read from `/proc` to label a session;
  - `daemon_config`, `client_config`, `paths` — both config files and the
    paths and command lines derived from them;
  - `terminal` — the argv that opens each known terminal emulator, and how
    the configured one is resolved;
  - `picker`, `settings`, `ui`, `fonts` — the picker window's rows, keys,
    settings form, screens and font lookup;
  - `text` — string helpers with their specifications.
- `tests/` — tests of the library.
- `app/` — the programs: `vpsd` (daemon, PTYs, splice loop) and `vps` (the
  iced window, config file I/O, spawning the terminal). One binary; the name
  it is run as picks the program.
