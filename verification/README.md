# reportal

A registry of local git repositories and workspaces for the `rep` command:
jump to a repository or workspace, open it in the editor or the browser,
run configured commands, paint the terminal tab, list, add, edit and remove
repositories, and lay workspaces out on disk as a directory of links plus a
`.code-workspace` file.

## Layout

- `src/` is the library, verified with Verus. Each command's decisions are a
  function from plain values (the registry, menu answers, what was found on
  disk or printed by git) to a plan or a result, with a contract stating it.
  `config` holds the registry and its invariant (keys sorted, as a map
  keeps them); `text` and `paths` hold the string and path primitives the
  contracts are written in. `rep add` is a step function (`repo_add_flow`):
  the caller performs each action and reports what happened.
- `app/` is the terminal front end: reading and writing the configuration
  file, prompts, child processes (git, the editor, the browser), files on
  disk, styled output and the command-line value types.
- `tests/` exercises the library on concrete values.

Calls the library makes into outside crates (the home directory, `~`
expansion, table rendering, the parent process id) and into the few std
functions Verus has no specification for go through small wrappers whose
contracts state what those functions document.
