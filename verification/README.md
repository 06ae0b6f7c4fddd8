# gwt

A git worktree helper. `gwt add`, `add-feat`, `add-fix` and `add-pr` add a
worktree for a new branch; `gwt init <url>` creates a workspace directory
holding a bare clone (`.bare`) whose `origin` fetches every branch;
`gwt purge` removes the `branch.<name>` config sections of branches that no
worktree has checked out.

Layout:

- `src/` — the library, verified with Verus. `flow` holds each command as a
  state machine whose steps name the next outside action (run git, look at
  or create a directory, finish) and the lines to log; `git` builds git's
  command lines and reads their outcomes; `worktree` parses
  `git worktree list --porcelain`; `commands` computes repository and
  workspace names, the clone and the stale sections; `logger` decides what
  is logged where; `path` and `text` hold the byte-path and character-level
  operations these are built from.
- `app/` — the program: command-line parsing, the `log` logger, and the
  loop that performs each action a state machine asks for.
- `tests/` — tests of the library.

Environment: `GWT_GIT` names the git executable (default `git`); `GWT_LOG`
sets the log level (`off`, `error`, `warn`, `info`, `debug`, `trace`;
default `info`).
