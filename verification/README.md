# rust-box

A tray application that installs, starts, stops and watches one command-line program,
with its settings in `rust-box.cfg` beside the executable.

`src/` is the library. It decides everything and touches nothing: each long-running job
(setting up the settings file, looking for the executable, installing it, managing the
child process, serving the tray) is a state machine that takes in what has happened and
says what to do next. Verus proves that each step does what its contract says, and the
`law_...` functions prove what holds of all steps together.

| module | what it holds |
| --- | --- |
| `config`, `encoding`, `config_laws` | the settings file |
| `setup` | creating the settings file |
| `command` | the command lines that are run, and what their output means |
| `locate`, `locate_laws` | the search for the executable |
| `install` | installing through winget, Chocolatey and Scoop |
| `manager`, `manager_laws` | the life of the child process |
| `tray` | the menu, the icon's animations and the dialogs |
| `icon` | decoding and recolouring the icon |
| `text`, `path` | strings and file names |
| `external` | calls of `base64` and of the standard library that are taken on trust |

The calls of the `image` crate and of `Path::file_name` that are taken on trust stand in
`icon` and `path`, beside what uses them.

`app/` runs the state machines: it does the I/O, shows the tray icon and talks to the
operating system. It expects the icon's picture, `rust-box.png`, beside the executable.

`tests/` runs the library on examples.
