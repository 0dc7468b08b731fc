# windirparse

Splits a Windows `dir /s` file listing into kept and excluded records, driven by an
exclusion file, behind a small iced window.

- `src/` is the verified library (Verus): the checks before a run (`execpress`), the checks on
  a picked exclusion file (`excludepress`), the exclusion file (`exclusions`), the records of
  listing lines (`records`, `dates`, and `zones` for the date texts whose time-zone offset cannot be read), the run state machine (`run`), progress messages
  (`progress`), the interface state machine (`window`), text and number helpers (`text`,
  `numtext`), and properties relating them (`laws`).
- `app/` is the window, the file dialog, the disk and the timers.
- `tests/` exercises the library on concrete values.
