# martijn_cli

`martijn` is a small command-line tool around the Azure CLI: it logs in
(interactively or as a service principal, with defaults from
`~/.martijn/cli/config.toml`), writes JSON snapshots of the resources and
resource groups of the active subscription, and renders inventory reports
(a resource list, a resource tree, a group list) from those snapshots, which
it can save as Markdown below `~/.martijn/cli/inventory/`.

The logic is a library verified with Verus:

- `src/` holds the library. Verus proves each of its functions against its
  `requires` / `ensures` contract, and the public `law_*` proof functions
  state properties that span several functions (login precedence,
  newest-first listings, snapshot contents, sort order, counting).
- `tests/` runs the library on concrete values.
- `app/` is the program around the library: argument handling, the `az`
  processes, the files below `~/.martijn/cli`, JSON and TOML parsing, and
  terminal output.

The library calls outside crates only through small trusted wrappers whose
contracts say what the crates document: `uuid` (parsing and new ids),
`sha2` (SHA-256), `time` (the current UTC time), `serde_json` (reading the
JSON arrays that the Azure CLI prints), and a few functions of the standard
library (white space, lowercase, path joining, UTF-8 decoding).
