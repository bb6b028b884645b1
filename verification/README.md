# dsh_desktop

DSH Desktop is a Windows desktop shell for `dsh web`: it finds (or installs)
node and dsh, starts dsh's web server or adopts one already running, keeps it
alive with back-off, shows it in a frameless window with a titlebar layer and
a DeepSeek page beside it, manages downloads, dsh versions and profiles, and
lets an agent install plugins through a folder of command files.

## Layout

- `src/` — the library, verified with Verus. Every decision of the program
  lives here with its contract:
  - `backend` — the status shown, adopting or spawning on the port, the ready
    line, exit messages, back-off and giving up, what to kill on exit;
  - `runtime`, `install` — locating node and dsh, choosing the npm registry,
    npm command lines, reading npm's log;
  - `downloads`, `filenames` — the download registry (every operation on it,
    as a state machine over its view), resuming, file names;
  - `controls` — the local control service (requests, routes, replies), the
    titlebar actions and overlays, themes, the agent's control channel, the
    automatic report, the plugin watcher;
  - `environments`, `settings` — the versions and profiles panels and the
    settings' folders;
  - `text`, `paths`, `util`, `json`, `scripts` — text, Windows paths, time,
    JSON reads through `serde_json`, the injected scripts;
  - `laws` — properties relating several operations.
- `tests/` — tests of the library on concrete values.
- `app/` — the Tauri program around the library: windows, tray, threads,
  sockets, child processes, files. It expects the desktop bundle's resources
  (`icons/`, the shell's HTML pages) beside the executable.
