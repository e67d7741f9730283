# termd session kernel

The part of a terminal daemon that keeps sessions alive: sessions and the devices that are attached to
them, the supervisor process that owns a pseudo-terminal and outlives its daemons, the protocol between
them, and the ledger of owned sessions.

- `src/` is the library. Everything that is decided is decided there, and every function is verified with
  Verus against its contract. Functions named `law_...` state what holds across several functions.
- `app/` runs the library on a Unix host: processes, sockets, files, threads and the ledger database. It
  performs what the library asks for and reports back what happened.
- `tests/` runs the library with its outside crates.

## Modules of the library

| Module | What it is about |
| --- | --- |
| `session`, `runtime` | sessions, attached devices, and the processes behind the sessions |
| `session_ownership` | rows of the ledger, and what to do about them after a crash |
| `pty` | commands, sizes, frames, errors, and what a session host has to offer |
| `pty::activity` | what a coding agent in a terminal is doing, seen from its output; known gap: `ClaudeCode` is not recognised by command line or title |
| `pty::portable`, `pty::tmux` | sessions on a native pseudo-terminal and in tmux |
| `pty::supervisor::state`, `connection`, `terminal_attach` | the supervisor: who controls the session, and how requests and viewers are served |
| `pty::supervisor::terminal_journal`, `output_queue`, `output_pump`, `screen` | the output of a session on its way to its readers |
| `pty::supervisor::client`, `resume`, `daemon_terminal`, `close_client`, `launch` | the daemon's side: requests, resuming control, the mirrored terminal, closing and starting |
| `pty::supervisor::startup`, `startup_grant`, `cleanup_auth` | how a supervisor starts, and how a close is authenticated |
| `pty::supervisor::runtime_dir`, `secure_dir`, `socket_binding`, `frame_codec`, `protocol` | where sockets are, how they are published, and what is sent over them |
| `text`, `paths`, `codec`, `collections` | text, paths, encodings and maps |

What comes from outside the library is declared next to its use, with a comment that says what is taken
for granted.
