# OpenHarness desktop host

OpenHarness packages an agent runtime and its web user interface into a native
desktop application. The host starts the bundled backend as a supervised child
process, shows its user interface in one window, keeps live session state in the
system tray, and updates the application.

`src/` is the decision logic of the host, written and proved in Verus:

- `boot`, `stream`: the backend's output, its boot line, and what of it is logged
- `supervisor`, `failure`, `state`: restarts, failure reports, the running backend
- `runtime_paths`, `launch`, `paths`, `logs`: the bundled runtime, how it is started,
  and where things are kept
- `shell_env`: the environment of the login shell
- `sessions`, `ui`, `preferences`: tray and application menus and what the web user
  interface reports
- `version`, `update`: releases and update operations
- `json`, `text`, `locale`, `error`: what the others are made of

Properties that span several functions are the public proof functions whose names
start with `law_`. What is taken on trust of `serde_json`, `semver`, `url` and the
standard library is said in the doc comments of the items that call them.

`app/` is the program around the library: processes, files, windows and dialogs.
`tests/` runs the library.
