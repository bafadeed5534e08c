# tfls_lsp

The request logic of a language server for Terraform and OpenTofu, with contracts that Verus
proves: completion, hover, navigation, rename, folding, formatting edits, code actions, code
lenses, inlay hints and document links.

- `src/` is the library. Each request is a function from the state of the workspace, a position
  and what was fetched for it to the answer; its `ensures` says what the answer is, over views of
  texts as sequences of characters. Texts with positions are `ropey` ropes. Facts that hold of
  several functions are public proof functions beside them.
- `tests/` runs the library on parsed files.
- `app/` turns parsed files, protocol values and files on disk into the values that the library
  takes, and back.

A syntax tree (`hcl`), schemas (`schema`), the built-in blocks of the language (`builtin`) and the
index of symbols (`state`) are plain data that the caller fills in.
