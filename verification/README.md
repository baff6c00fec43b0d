# rigel

The core of Rigel, an SFTP client with a terminal front end, written in Verus:
the client's rules and the front end's state machine are verified; talking to
the network, the disk and the terminal is plain Rust around them.

## Layout

- `src/` — the verified library (`rigel`):
  - `text.rs`: character-level string helpers (decimal numbers, `u16` parsing,
    splitting, lexicographic order).
  - `session.rs`: remote and local paths (joining, parent directory) and the session
    state with its numbered transfer queue.
  - `listing.rs`: directory entries and their stable order (directories first,
    then by lower-cased name).
  - `hosts.rs`: saved hosts, added or replaced by label, deleted by label.
  - `known_hosts.rs`: the known-hosts store (its text format, and trust on
    first use of host keys).
  - `ssh.rs`: authentication methods, host-key policy and the meaning of
    handshake and authentication outcomes.
  - `transfer.rs`: transfer direction, status, shared progress.
  - `tui.rs`: the terminal front end as a state machine from keys to screen
    state and outside work, and the text it shows.
  - `error.rs`: the client's errors.
- `tests/` — tests of the library on concrete values.
- `app/` — the program: terminal, SSH/SFTP connection, files, and the loop
  that feeds keys to the state machine and runs the work it asks for.
