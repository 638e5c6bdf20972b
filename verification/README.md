# norenwake

A terminal UI that spins a public GitHub repository off into a new one: pick a
repository, clone it, give the copy a new name, commit, check the remotes, push.

`src/` is the library, verified with Verus:

- `app` — the application state, its view as values, the key and mouse handling
  and the pane layout.
- `workflow` — start-up, the TODO list, the log pane, and the clone / rename /
  commit / push steps, including the hard guard checked before every push. The
  clone, the rename and the push are each planned as a list of steps (the push's
  only once that guard lets it through) that the program then carries out.
- `git_ops` — the remote addresses of the spin-off, the `git remote` commands that
  make the remotes safe, the safety report, and failure messages of commands.
- `github` — which repositories are listed and in what order, the paged listing,
  README addresses and the token sources.
- `readme` — the introduction written at the top of `README.ja.md`.
- `cache` — the README cache index and the choice between cache and download.
- `tree` — the directory tree pane.
- `display` — what the screen shows, as values: panes, popups, colours, spinner,
  the filter popup's rows, the validation pane's lines.
- `delta`, `logging`, `text`, `layout`, `paths`, `models`, `cli`, `self_update`.

`app/` is the program around it: the command line, the terminal, the GitHub API,
running git and delta, files, and the clipboard.
