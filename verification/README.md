# noa_app

The input, pacing and overlay logic of the noa terminal, written in Verus
and proved against its contracts.

`src/` is the verified library:

- `keyboard`, `kitty`, `ime`, `paste`, `mouse`: what a key, IME, paste or
  mouse event writes to the pty (legacy xterm, modifyOtherKeys and Kitty
  keyboard encodings; the xterm mouse protocols; bracketed paste).
- `redraw`, `throttle`, `io_loop`, `input_queue`, `attach`: the io thread's
  pacing and bookkeeping: the shared redraw floor, publish throttles, owed
  deadlines, the pty input budget and overflow, raw-attach generations.
- `applescript`, `ipc_registry`, `ipc_shared`, `ipc_grid`, `wire`: the
  scripting and IPC surfaces: event routing, object-specifier resolution,
  pane ids and the tables keyed by them, grid windows, rows in wire form and
  their content hashes.
- `hotkey`, `menu_keys`, `link`, `notification`, `process_monitor`,
  `overlay`, `sidebar`, `record_view`, `civil`, `window_tabs`, `latency`:
  chords, link targets, notifications, the process monitor and overlay view
  models, the annotation rows of a restored pane with their civil-time
  stamps, and native tab placement.

`app/` is the platform side (winit events, threads and channels, launching
links, floating-point geometry); `tests/` runs the library on concrete
scenarios.
