# tui-runner

A terminal project runner: it scaffolds new projects with the tools found on
the machine, detects which kinds of projects a folder holds, asks how to run
them, and runs their processes side by side in a dashboard.

## Layout

- `src/` is the verified library (Verus). It holds the decisions of the
  program as functions from plain values to plain values, each with a
  contract:
  - `text`, `paths`: string and path operations the rest is stated over.
  - `vars`: the variable map and `{placeholder}` substitution.
  - `json`, `pattern`: JSON values and regular expressions, through
    `serde_json` and `regex`.
  - `config`: the configuration's types.
  - `detect`: which project a folder holds, from what is read of it.
  - `engine`: how processes are launched, how readiness is planned and
    checked, and who waits for whom.
  - `langscan`, `project_creator`, `ports`: the tools looked for, the
    scaffolds offered and planned, and the commands that free ports.
  - `menus`, `filebrowser`, `ui`: the state of the interactive screens and
    what each key does to it.
  - `wizard`, `setup`: the setup dialogue, one question at a time.
- `app/` is the program around it: terminal drawing (`ratatui`,
  `crossterm`), processes and timers (`tokio`), the file system and the
  configuration file's serde format.
- `tests/` runs the library on concrete values.
