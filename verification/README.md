# garden

Garden grows and cultivates collections of Git trees: it reads a `garden.yaml`
file that names trees, groups of trees and gardens, evaluates the variables and
environments defined for them, and runs commands across them.

The library under `src/` is written in Verus and verified:

- `syntax`, `text`, `path`: the query syntax (`@tree`, `%group`, `:garden`,
  `graft::name`), string and path helpers.
- `yaml`, `config`: YAML documents as plain values and the reading of garden files
  into configurations.
- `model`, `collections`: configurations, trees, groups, gardens and grafts.
- `query`: resolving tree queries into tree contexts.
- `eval`: where a variable's value comes from in each scope, and how environment
  definitions combine.
- `cmd`, `run`: shell parameters, command expansion with pre- and post-commands, and
  the exit statuses of command lists.
- `git`, `grow`, `plant`, `prune`, `init`: reading Git output, the Git commands
  that create, configure, record and prune trees, and the garden file that
  `garden init` writes.
- `display`: the lines that listings print, as styled pieces of text, and the steps
  of `garden ls`.
- `gui`, `sort`: the command lines of the graphical front end, and string order.

`app/` is the `garden` program around the library: option parsing, reading files,
running processes and printing.
