# adbrowse

A dual-pane terminal file browser: the local file system on the left, an
Android device's `/sdcard` (through `adb`) on the right.

The state of the browser, what every key does, which operation on the disk or
the device it asks for (on which paths), what adb is handed and what its output
means are a library verified with Verus. The program around it runs the
operations (`std::fs`, the `adb` executable), reads the terminal, draws, and
reads the command line and configuration file.

## Layout

- `src/` — the verified library
  - `app.rs` — panes, selection, cursor, dialogs, loading directories
  - `input.rs` — the key handler, stated as a function from state and key to
    the next state and the operation asked for (`handled`), and what the
    outcome of an operation leads to (`resumed`), with the laws they keep
  - `ops.rs` — operations and their outcomes
  - `transfer.rs` — the queue of copy jobs and its status changes
  - `file_entry.rs` — entries, their listing order and sorting, `format_size`
  - `ui_text.rs` — the text the screen shows of the state: pane titles and
    rows, the transfer and status bars, the lines of the dialogs
  - `adb.rs` — adb's arguments for each operation (remote paths quoted for the
    device's shell) and the reading of its output: devices, listings (`find`,
    or `ls -la` where `find` cannot print them), errors
  - `text.rs`, `paths.rs`, `error.rs`, `event.rs`, `config.rs`, `cli.rs`,
    `list_app.rs` — helpers and small parts
- `app/` — `main`, running operations (`run.rs`, `local_fs.rs`), terminal
  events (crossterm), drawing (ratatui), the command line (clap) and the
  configuration file (serde, toml, dirs)
- `tests/` — tests of the library
