# search_blame

A command-line tool that searches text in files and runs `git blame` on the
lines found, keeping those that a given person last changed.

- `src/` is the verified library: the search over file contents
  (`search.rs`, laws in `search_laws.rs`), the grouping of blamed lines by
  file (`git.rs`, laws in `blame_laws.rs`), paths relative to the repository
  root (`paths.rs`), the progress-display trait (`ui.rs`) and the command
  line (`cli.rs`).
- `app/` is the program around it: argument parsing, the directory walk and
  file reads, the calls into the git repository, the progress spinner and the
  printed report.
