# ctf-man

A terminal tool for managing CTF challenge folders: `ctf` opens a TUI to
choose the active CTF (from CTFtime or a local SQLite database), and
`ctf <category> <name>` creates `<active CTF>/<category>/<name>/`, fills it
from the category's template and records the challenge.

## Layout

- `src/` — the library, verified with Verus. It holds the decisions of the
  program: the state of the TUI and its reaction to every key
  (`state`, `dispatch`, `keys`, `onboarding`, `settings_state`), the text the
  screens show (`view`), which CTFs are active or archived (`listing`),
  challenge naming and the filesystem sync (`sync`), planning a new
  challenge (`runner`), paths and configuration (`config`, `templates`,
  `models`), the CTFtime import (`ctftime`, `seed`) and matching imported
  CTFs and challenges (`import`).
- `app/` — the program around it: terminal drawing (ratatui), key input
  (crossterm), the SQLite database (rusqlite), HTTP (reqwest), the
  configuration file (toml/serde) and the filesystem. It performs the
  outside work the library's reactions ask for.
- `tests/` — tests of the library on concrete values.
