# worktree-gc

Cleans up git worktrees whose pull requests have been merged.

- `src/` is the library: which worktrees may go and in which steps, what is recorded and told, how
  settings are found, and how daily runs are set up under launchd and systemd. All of it is verified
  with Verus. What must be done on a machine comes out of it as values: commands, plans of steps,
  lines to print.
- `app/` is the program around it: arguments, terminal, files, git, `gh`, and the releases on GitHub.
- `tests/` runs the library on concrete values.

## Where to look

| Module | What it states |
|---|---|
| `repo_run` | The work on one repository as a state machine. A worktree goes only if it is not the main one, has a branch, and GitHub has said that the branch has a merged pull request; the worktree that git lists first stays; a dry run changes nothing and tells what a real run does; each worktree has one outcome and one record, in order. |
| `gc` | Reading remotes and lists of worktrees, the commands for git and `gh`, prerequisites. |
| `summary`, `history`, `logging` | What is told and recorded of a run, and read back. The log of a run ends with one summary, which counts its repositories and its records. |
| `config`, `names`, `defaults` | The saved configuration, its sorted lists of named things, and the rule for names. |
| `cli`, `workspace`, `schedule` | What the commands decide, and which setting beats which. |
| `schedule_dialog`, `workspace_dialog` | What is asked next about schedules and workspaces. Nothing is installed, saved or removed without agreement to just that. |
| `platform_scheduler`, `launchd`, `systemd`, `plist`, `schedule_names` | Named daily schedules as plans of steps, and the time that a written schedule is read back with. |
| `scheduler` | The single, unnamed daily run. |
| `plan`, `command`, `platform`, `ui`, `error` | Steps, commands, the machine, lines for the terminal, errors. |
| `text`, `paths` | Text and file paths as sequences of characters. |
| `update` | Whether a release is newer. The comparison of versions itself is left to `self_update`. |
