# git_mile

The logic of git-mile, a task tracker kept in a Git repository, written in
Verus: every function in `src/` carries a `requires`/`ensures` contract that
Verus proves.

## Layout

- `src/` — the verified library.
  - `text`, `sets`, `keys`: text, sorted string sets and key expressions.
  - `task`, `task_patch`, `task_service`, `event_log`: task snapshots and
    identifiers, the patch between a snapshot and an edit and the events
    that record it, the planned updates, and the event log table.
  - `config`, `keybindings`: workflow states and the keybinding
    configuration with its validation and help lines.
  - `editor`, `display`, `filter`, `filter_args`, `filter_form`: the
    editor templates and their parsers, the filter, its editor form and
    summary, and filters built from plain conditions.
  - `visibility`, `task_cache`, `tree_view`, `ui`, `ui_state`: the terminal
    interface's state and what each key does to it.
  - `commands`, `mcp`: the command-line tables and the tool parameters.
- `tests/` — tests over the library.
- `app/` — the program around the library: argument parsing, configuration
  files, the environment and the terminal.

Calls into `time`, `base64` and `unicode-segmentation` sit behind small
trusted functions whose contracts name what those crates return.
