# basalto-tui

A terminal interface for a Basalto library of files: browse its folders,
rename and create files inline, mark them for deletion, copy a file or a
template folder into a project, keep per-file metadata (description, tags,
uses, date added) in the library's index, and look at its git status and
plugins.

## Layout

- `src/` — the library, verified with Verus. Every transition of the
  interface is a method on `App` whose contract says exactly how the state
  changes; work that needs the file system, git or the terminal is returned
  as an `Effect` and its outcome handed back through another method.
  - `text`, `sort`, `date` — character sequences, sorting, calendar dates.
  - `index` — the library index, directory listings, tags, plugins.
  - `app`, `edit`, `command`, `sidebar`, `keys` — the interface state and
    its transitions, key by key.
  - `preview`, `git`, `icons`, `view`, `paths` — what the screen shows.
  - `laws` — properties spanning several transitions.
- `app/` — the program: terminal setup, the event loop that performs the
  effects, file and git I/O, the toml files, and drawing with ratatui.
- `tests/` — tests of the library on concrete values.
