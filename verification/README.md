# Globlin

A tray app that watches the packages installed globally through npm, bun,
pnpm, yarn, pipx, uv, scoop, cargo, go, dotnet, the PowerShell Gallery, gem,
winget and Chocolatey, and says when one falls behind.

- `src/` is the library, verified with Verus: reading what each package
  manager reports (`source/`), the commands that update and remove a package,
  which sources a config switches on, the tray menu and the ids its rows carry
  (`tray/`), what the window renders (`window.rs`), a batch of updates worked
  through step by step (`update.rs`), and the tray icon's pixels (`icon.rs`).
- `app/` is the rest: finding and running the programs, reading their files
  and `globlin.json`, the tray icon and the window.
- `tests/` runs the library on the outputs the package managers print.
