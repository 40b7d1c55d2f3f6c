# signal_tui

A terminal client for Signal on top of `signal-cli`'s JSON-RPC interface.

The library in `src/` holds the client's state, what it does on a key and on
each value that `signal-cli` sends, the order and the filter of the contact
list, the calls that it makes, and what the screen shows. It is verified with
Verus: each function states what it does in terms of a mathematical state, and
`src/laws.rs` proves what holds of the client as a whole. `serde_json` reads and
writes the lines, and `ratatui` counts the rows that a conversation takes.

`app/` is the program around it: processes, threads, keyboard, terminal and
desktop notifications.

## Keys

| Key | Where | Action |
|-----|-------|--------|
| `j` / `k`, Down / Up | list | Move the highlighted row |
| `gg` / `G` | list | First / last row |
| `/` | list | Filter the contacts |
| `i`, Enter | list | Open the highlighted chat and write |
| Tab | list, input | Switch between the list and the input |
| Enter | input | Send the message |
| Esc | input, filter | Back to the list; in the filter, drop it |
| Enter | filter | Back to the list, keep the filter |
| `q` | list | Quit |
| Ctrl-C | everywhere | Quit |
