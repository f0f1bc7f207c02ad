# Cakeman

A no-nonsense C/C++ package manager, with its core verified in Verus.

- `src/` is the verified library: the manifest (`Cake.toml`) and its dependency list, the
  lock file and the record of installed packages, dependency resolution as a state machine,
  the generated `CMakeLists.txt` files, registry addresses, the decisions of each command and
  the lines printed on the terminal, and the TOML lookups and edits made through `toml` and
  `toml_edit`. Contracts state each result exactly; the laws of the
  collections (what adding and removing a package do, and undo) are proof functions beside them, and `resolution` proves
  what a whole resolution comes to.
- `app/` is the `cman` program around it: argument parsing, reading and writing files with
  serde, HTTP and GitHub calls, `git` and `cmake` processes, and progress bars.
- `tests/` runs the library on concrete values.
