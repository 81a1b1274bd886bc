# rx_script

Plugin scripting for a pixel editor. Plugins are Rune scripts; each exports
`pub fn init(rx)`, which returns the plugin's state, and any of the hooks
`update`, `switch_mode`, `cursor_moved`, `mouse_input`, `view_added`,
`view_removed` and `unload`, which get `(state, rx, ...)`.

- `src/` is the library, verified with Verus: the session context that scripts
  see (`ctx`, `session`, `settings`), compiling and calling scripts (`engine`,
  on the trusted declarations in `vm`), discovering, loading and unloading
  plugins (`discovery`, `loading`, `host`), handing out hooks (`hooks`), what
  there is to log (`journal`), hot reload (`watcher`) and the headless platform
  (`platform`).
- `app/` connects it to files, to the file watcher and to the native `rx`
  module.
- `tests/` runs the library against the real script engine.
