# rust_validation_hooks

Checks run around a code assistant's file edits: what a change does to a
file's quality, whether new code fakes an implementation, whether a new
file duplicates an existing one, what an edit does to a function's
parameters, and the prompt and report texts built from those findings.

- `src/` is the library, written and proved with Verus. Each public
  function states what it returns in its `ensures`; the `law_*` proof
  functions state properties that hold across calls.
- Calls into other crates (`regex`, `globset`, `serde_json`, `tree-sitter`
  and its grammars, and parts of `std`) sit behind small trusted wrappers
  whose doc comments say what is claimed of them.
- `app/` holds the parts that read files, walk directories, run external
  programs or compute with floating point, and hands plain values to the
  library.
- `tests/` runs the library on concrete inputs.
