# window_switcher

A classic Alt+Tab replacement for Windows: `Alt+Tab` walks every top-level
window in the global window order, `Alt+Backtick` walks the windows of the
foreground application, `Shift` reverses, releasing `Alt` activates.

The decisions of the switcher are a Verus-verified library; the Win32 calls
around them are ordinary Rust.

- `src/` — the verified library.
  - `keyboard` — the low-level keyboard hook as a state machine from key
    event to command.
  - `index`, `switch_apps` — the all-windows selector: ring stepping,
    selection, activation order.
  - `switch_windows`, `index_set` — the same-application cycle and the
    ring it keeps while the modifier is held (on `indexmap::IndexSet`).
  - `candidates`, `window_rules` — which windows are listed, how a blocking
    dialog and its owner become one entry, window sizes and process paths.
  - `app_identity`, `text` — module paths, browser profiles and web apps
    read from AUMIDs, and the key that groups windows into an application.
  - `layout` — geometry of the switcher window and the click hit test.
  - `message` — how window messages are read.
  - `icons`, `cache` — icon cache planning and cache eviction.
  - `args`, `report`, `perf` — helpers of the diagnostic tools.
- `tests/` — tests of the library.
- `app/` — the program: window creation, message loop, hook installation,
  GDI+ drawing, Win32 queries.
