# harness

A terminal browser for Linear issues, split into a verified library and a thin
program around it.

- `src/` is the library, written in Verus and proved against its contracts:
  - `text`: character-level string operations (replace, join, trim, lines,
    split, decimal notation, lexicographic order, sorted distinct lists).
  - `linear`: the issue data the browser works with, blocked/priority rules,
    and the interpretation of API responses.
  - `filters`: filter dimensions and values, which issues pass, and the
    stable ordering of the list.
  - `app`: the browser state and every transition the user can make.
  - `keys`: the key bindings of each mode, and preparing extension runs.
  - `extensions`: selecting configured extensions and filling in command
    templates.
  - `paths`, `project`: `~` expansion, path components and the choice of the
    project mapping for the working directory.
  - `markdown`, `style`, `ui`: rendering issue descriptions into styled lines,
    and the texts and colors shown for issues.
- `app/` is the program: terminal handling and drawing (ratatui, crossterm),
  HTTP requests to Linear (reqwest), configuration files (toml), and running
  extension commands (tokio processes).
- `tests/` exercises the library.
