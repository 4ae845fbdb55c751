# codex_usage_win

The verified core of Codex Usage Win, a Windows taskbar widget that shows the
remaining Codex quota of the 5-hour and 7-day windows.

- `src/` is the library, written in Verus: every function carries a contract
  and is proved against it. It holds colour parsing and printing, the theme
  styles and their presets, the widget's layout, placement and hit testing,
  the editable JSONC settings and the settings file, low-quota alerts, the
  poll loop's decisions and timers, the main window's menu commands, live
  style previews, the context and popup menus, the style editor's
  layout and the pixel passes of the layered window.
- `tests/` runs the library on concrete values.
- `app/` is the program around it: the command line, reading and writing the
  settings file with serde, reading and writing the JSONC settings text, and
  the Windows time-zone conversion.

Verify with Verus on `src/lib.rs`; the public proof functions named `lemma_*`
state the properties the library keeps across calls.
