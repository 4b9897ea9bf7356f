# dodot

A dotfiles manager that deploys packs of configuration files with
symlinks. This crate is its decision layer, written in Verus: every
function in `src/` carries a contract and is proved against it.

## Layout

- `src/` — the verified library, one module per concern:
  - `text`, `paths`, `numeric`: character sequences, path arithmetic
    and number formatting the rest is stated over;
  - `infer`, `classify`, `gates`, `rules`, `adopt`: where an adopted
    source lands in a pack, which entries a pack scan reads, and the
    plan, refusals and report of an adopt run;
  - `commands`, `down`, `display`, `install`, `git_alias`,
    `git_filters`: the other commands' decisions and output;
  - `probe`, `profile_runs`: the introspection views over recorded
    shell-startup profiles;
  - `safety`, `help`, `handlers`, `interactive`, `logging`, `tutorial`:
    the command line's rules (Safety Lock, help routing, post-run
    prompts, the walk-through's flow).
- `tests/` — ordinary Rust tests against the compiled library.
- `app/` — the `dodot` binary: argument parsing, the filesystem, `git`,
  the terminal and logging, handing plain values to the library.

The laws the library keeps across calls are public proof functions
whose names start with `law_`.
