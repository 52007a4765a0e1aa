# rmux-jump

A terminal picker for jumping across RMUX sessions and windows. What it decides
is a library verified with Verus; what it reads, sends and draws is ordinary
Rust around that library.

## Using it

```sh
rmux-jump --preview-lines 12
rmux-jump --window-lines 10
rmux-jump --refresh-seconds 0
rmux-jump --list --all-windows
```

- `h` / `l` (or `←` / `→`, `Tab` / `Shift-Tab`): switch sessions across the top
- `j` / `k` (or `↑` / `↓`): move through the windows of the session, round and round
- `Enter`: switch to the selected window
- `$` / `,`: rename the selected session or window (Enter saves, Esc cancels)
- `X` / `x`: kill the selected session or window (`y` confirms, `n` / `Esc` cancels)
- `r`: refresh now
- `q` / `Esc`: quit

`--all-windows` only affects the printout of `--list`; the picker always shows
every window under its session.

## The library (`src/`)

| Module | What it holds |
| --- | --- |
| `text`, `search`, `table` | characters, lines, numbers and the order of names; first matches; values by key |
| `model` | entries, sessions, and where the picker was opened from |
| `options` | the command line, what is loaded for it, and the refresh interval |
| `sessions` | grouping entries by session, and the place where the picker opens |
| `preview`, `activity` | what is shown of a pane, fingerprints, and the startup probe |
| `inventory` | entries from what the daemon says of its panes |
| `rmux` | commands for the daemon and the reading of its replies |
| `picker`, `picker_laws` | the state of the picker, its operations, and what they keep |
| `keys`, `run` | what the keys do, and refreshes as time goes by |
| `screen`, `listing` | styled lines for the terminal, and the printed list |

Each operation is stated over the view of its arguments. Functions named `law_`
state what holds across operations. What the library takes on trust is marked
`external_body` or `assume_specification`, and says so above: two functions of
`String`, the decoding of bytes into text, and the names, targets and ids of
`rmux_proto`.

## The program (`app/`)

`main.rs` runs the picker, `args.rs` reads the command line, `daemon.rs` talks to
RMUX, `probe.rs` runs the startup probe on a thread, and `terminal.rs` reads keys
and draws.
