# nexos

A simulated Unix shell for the browser: an in-memory file system,
thirty-eight registered built-in commands (more, such as `sudo`, `su`,
`useradd` or `comm`, are callable from their modules), and a command-line
interpreter with pipes, redirection and `&&` chains. The library is written in Verus; every
function carries a contract and is proved against it.

## Layout

- `src/text.rs`, `src/numeric.rs`, `src/order.rs` — character sequences,
  number parsing and printing, lexicographic order and sorting.
- `src/path.rs` — path resolution (`.`/`..`, the working directory).
- `src/vfs.rs` — the file system: nodes keyed by normalized paths, each a
  directory or a file with contents and metadata.
- `src/permissions.rs` — mode bits, `chmod` modes, access checks.
- `src/users.rs` — the user and group database read from `/etc/passwd` and
  `/etc/group`.
- `src/env.rs` — environment variables.
- `src/command/` — one module per command; `mod.rs` holds the command
  context, the `Command` trait and the registry; `kinds.rs` states what each
  command does in a context.
- `src/shell.rs` — the interpreter: segments, pipeline stages, redirection,
  and what a whole command line does.
- `src/command/mount.rs` — the table of host directories mounted into the
  file system (the mounting itself is the host's).
- `src/changes.rs` — what changed since the last save (files written or
  deleted, history, environment), for saving only that.
- `app/` — the `wasm-bindgen` bindings for the web front end, the session
  state as JSON, and `seq` (floating point).
- `tests/` — tests of the library.
