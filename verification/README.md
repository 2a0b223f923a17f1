# Harmonium

An agent orchestrator: projects are git repositories, and a task described in
plain language becomes a coding agent that works in a worktree of its own, in a
terminal inside the window.

`src/` is the library, verified with Verus. It decides; it never reads a file,
starts a process or draws.

- `text`, `offsets`, `paths`: the vocabulary of the contracts.
- `state`: the records of a session, bringing old ones up to date, and when the
  session file may be written.
- `planner`: command lines, the planner's prompt and reply, what git is asked,
  and the steps that turn a plan into a directory.
- `terminal`: keys, mouse, selection, colors, the frame that is drawn, and the
  scrollback that is saved.
- `input`, `dialogs`, `panel`, `theme`, `log`, `assets`, `start`, `pointer`: the
  text field, the dialogs, and the smaller parts.
- `workspace`: what the user does to the workspace, one step at a time. A step
  changes the state and lists its effects. `workspace/laws.rs` states what holds
  over several steps.

`app/` is the program around it: the window, the processes, the files. The
variable `HARMONIUM_AGENT` names the agent CLI that runs where no preset says
otherwise; its sandbox wrapper goes by the same name with `-isol` behind it.

`tests/` runs the library on concrete values.
