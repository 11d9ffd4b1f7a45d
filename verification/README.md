# taylorhub

The decisions of the TaylorHub desktop app (installing, updating and removing
the apps of a suite from their GitHub releases), written in Verus and proved
against their contracts.

- `src/` is the verified library. Each module holds one concern:
  `pkg` (system package managers and their commands), `glob` (asset globs),
  `release` (releases, the release cache, icons), `repo` (repositories the
  user adds), `detect` and `registry` (what is installed, on Linux and in the
  Windows registry), `install` (installs, updates, uninstalls and menu
  entries), `dispatch` and `desktop` (file associations and the texts the
  desktop is given), `recents`, `cleanup`, `github` (sign-in), and the
  building blocks `text`, `lists`, `paths`, `version`.
  Public proof functions named `law_*` (and the glob and list lemmas) state
  what holds across calls.
- `tests/` runs the library on concrete values.
- `app/` is the Tauri application around it: commands, files, network,
  registry and processes. Every decision it acts on is a library call.
