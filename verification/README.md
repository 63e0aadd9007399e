# forge

A tool manager for an artifact portal, written in Verus.

- `src/` is the verified library: the local install state (`state::local`),
  the portal's API shapes, routes and error responses (`client::api`),
  download digest checks (`client::download`), configuration and token
  choice (`config`), platform naming (`platform`), and the decisions behind
  each command (`commands::*`), above all the dependency walk that plans an
  install (`commands::install::plan_install`).
- `app/` is the `forge` command line around it: argument parsing, prompts,
  HTTP, files and terminal output.
- `tests/` exercises the library on concrete values.
