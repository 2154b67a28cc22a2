# sisr

The verified core of SISR, a tool that routes controllers through Steam
Input. The library (`src/`) holds the decisions the program makes and proves
them against their contracts with Verus:

- `version`, `updater`: release version parsing and ordering, the update
  state shown in the UI ("remind later", "skip this version"), and the
  install and browser commands.
- `json`: the config file's JSON documents — merging a partial config into
  the file and recording the selected Steam Input profile — with serde_json
  reading and writing the text.
- `restart`: the Steam restart as a state machine whose steps the program
  carries out, and the command that restarts SISR afterwards.
- `input`, `joystick_update`, `window`, `actions`: controller shortcuts with
  their debounce, UI navigation, and the window and Steam Input actions
  (turning the Steam overlay window on or off is a small step machine that
  sends one event at a time).
- `api`: request and response bodies and the HTTP handlers' decisions.
- `display`, `gui`: choosing the X11 display for the webview, and the texts
  and toggles of the debug windows.
- `text`: trimming, searching, and decimal parsing and formatting.

`app/` is the program around it: HTTP handlers, file and network work,
process spawning and the serde copies of the library's types. `tests/`
exercises the library on concrete values.
