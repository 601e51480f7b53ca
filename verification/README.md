# devc

`devc` generates development containers from a repository of templates.

- `src/` is the library, verified with Verus: personalising `devcontainer.json`
  (reading it, setting the title and the Git identity, writing it with its
  well-known members first), the security settings of a container (decided
  step by step from flags and answers), tool versions in Dockerfiles, passwords,
  the cache's configuration and template listing, the credentials record, the
  choices made while downloading templates, and the layout of the terminal
  frame.
- `app/` is the command line around it: arguments, prompts, the terminal,
  files and the network.
- `tests/` runs the library on concrete values.
