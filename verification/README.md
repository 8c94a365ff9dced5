# emtk

The verified core of the EXAMINER mod launcher for Exanima and of its in-game
overlay, written in Verus.

`src/` is the library, every function of it proved against its contract,
but for two one-call wrappers on outside functions (`ron::ser::to_string` and
`std::path::Path::file_name`), whose contracts are trusted:

- `config`: the colour themes and their names, the GUI settings and the
  launcher-wide state (settings, loading flag, log events, theme).
- `log`: log events as the launcher receives them.
- `load_order`: a profile's load order, with the priority moves that dragging
  a row performs and the laws they obey.
- `table`: the load order table's rows, cells, column headers and footers.
- `instance`: the view state of one game instance and how it answers every
  message of its user interface (`Instance::update`).
- `workspace`: panes and tabs of the launcher window, toasts, shortcuts.
- `hotkey`, `cli`, `text`, `encode`, `path`: shortcuts, command line
  decisions, the authors line of the overlay's about window, RON encoding of
  paths, and the last component of a path.
- `overlay`: the overlay's input recording, toggles and menu decisions.

`app/` is the program around it: the command line, the file work that the
instance view asks for (`app/effects.rs`), the launcher's file formats, and
the floating-point layout state of the table.

`tests/` holds the tests, run against the compiled library.
