# rvm

The verified core of `r`, a Rust toolchain version manager: it resolves
version strings and aliases to release tags, reads channel manifests, picks
cached toolchains, plans pruning and removal, and decides each step of
installing, fetching and running a toolchain. Every function in `src/` is
checked by Verus against its `requires`/`ensures` contract, except the items
that Verus takes on trust because they call code it does not read:
`layout::path_exists` (`std::path::Path::exists`), `update::release_tag_name`
(`serde_json::from_str` into a `Value`, then its `tag_name` string), with the
name `update::json_tag_name` for what it returns, and the specification of
`String::push` in `text`.

- `src/`: the library (see the module list in `src/lib.rs`).
- `app/`: the command-line program around it: argument parsing, the
  environment, the file system, HTTP downloads, archive extraction, prompts.
  It performs the actions that `flow::step` and the other decision functions
  ask for.
- `tests/`: tests of the library on concrete values.
