# conway_cli

The command-line side of the conway agent harness, as a verified library:
what each command decides and prints, with every decision stated in a
contract and proved by Verus.

- `src/` is the library. Each module holds the logic of one part of the
  command line: one-shot mode (`oneshot`, `render`, `cli`), the
  subcommands (`sessions`, `routes`, `tools`, `memory`, `plugin`,
  `plugin_rows`, `claude_compat`,
  `trust`), first-run setup (`first_run`, `provider_save`,
  `window_setup`, `shell_offer`), session references and names
  (`session_ref`, `session_names`), cumulative diffs (`diff`), exit codes
  (`exit`), diagnostics (`diag`), paths (`paths`) and the shared text and
  table helpers (`text`, `fmt`). Where a step waits on the terminal, the
  network or the agent runtime, the library offers it as a state machine:
  a function from state and event to next state, text and action.
- `tests/` exercises the library on concrete values.
- `app/` is the binary around it: argument parsing and the process's
  streams.
