# crc_window

The logic of a code editor's window, verified with Verus: what each key, click
and answer from outside changes, and what the window asks for in return.

- `src/` is the library. An `EditorView` holds everything the window knows.
  Its methods take what happened and write down, in order, what has to be done
  outside; they never act themselves. Every function states in its contract
  what it changes and what it asks for.
- `tests/` runs the library on concrete values.
- `app/` is the AppKit view around it: it hands events to the library and does
  what it asks for. It needs macOS, and an `Engine` that edits text, draws,
  and talks to language servers, Git and terminals.

Units: times are milliseconds (the refresh interval microseconds), measures
hundredths of a point, texts UTF-8.

## Where things are

| | |
|---|---|
| `state`, `pacing`, `link` | what the window knows, and when it draws |
| `buffer`, `documents`, `panes`, `tabs` | documents and the panes they are in |
| `keys`, `keyboard`, `input`, `edit`, `clipboard` | keys, and the text they type |
| `mouse`, `pointer`, `clicks`, `cursors`, `frame` | where things are, and the pointer |
| `find`, `replace`, `project_search`, `replacing`, `goto_line` | finding and replacing |
| `palette`, `menu`, `actions` | commands |
| `files`, `places`, `save`, `disk`, `session`, `recovery`, `launch`, `delegate` | files, leaving and starting |
| `project`, `sidebar`, `moves`, `trash`, `ignore`, `path` | the tree |
| `git`, `gutter`, `folding` | source control and what is beside the text |
| `servers`, `ask`, `events`, `suggest`, `completion`, `rename`, `formatting`, `jump`, `references`, `diagnostics` | language servers |
| `terminal`, `sessions` | the terminal |
| `bridge`, `host` | the assistant |
| `http`, `settings`, `render`, `readout`, `labels`, `selftest` | requests, settings, what is drawn, scripts |
