# bluetodo_tui

A terminal client for the BlueTodo line protocol, with its logic verified by Verus.

Start it with `--host HOST --port PORT --token TOKEN` (defaults: `127.0.0.1`, `5877`, no token).

Keys:

- Active todos: `n` new, `e` edit, `x` archive, `v` archive view, `Enter` open, `r` reload, `q` quit
- Archive: `u` restore, `v` active list, `Enter` open, `r` reload, `q` quit
- Tasks: `a` new task, `e` edit, `t` toggle, `b` back, `r` reload, `q` quit

## Layout

- `src/` is the verified library:
  - `crc`, `codec`, `line`, `params`, `request`: the wire format. Each line is
    `COMMAND key=value ... seq=N crc32=XXXXXXXX`, values percent-encoded, the CRC-32
    covering everything before ` crc32=`. `request::lemma_request_roundtrip_digits`
    proves that reading a built line gives back its command, parameters and
    sequence digits (`lemma_request_roundtrip` for numbered requests), and
    `crc::lemma_crc32_residue` that data followed by its little-endian CRC-32
    always checks to `0x2144DF1C`.
  - `client`: the requests of each operation, collecting the reply lines of one
    request, and reading todos, tasks, ids and flags out of them.
  - `state`, `screen`, `form`, `layout`: the screen as a state machine. Keys and
    server replies change the state; the state answers with an `Effect` for the
    program to carry out.
  - `args`, `numbers`, `text`, `chars`, `strings`, `error`: command line, decimal
    numbers, white space, and messages.
- `app/main.rs` is the program: the TCP connection, curses, and the formatting of
  the decimal figures (budgets, progress, amounts).
- `tests/` runs the library on concrete values.
