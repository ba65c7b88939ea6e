# swc_ecma_compiler

Compatibility transforms for ECMAScript syntax trees (ES2015 to ES2026 and
the styled-components plugin), with their behaviour stated as contracts and
proved by Verus.

- `src/` is the verified library. It works on a plain model of the syntax
  tree (`ast.rs`, viewed through `ast_view.rs`); each pass states in its
  contracts what it makes of the nodes it is handed, and the laws that span
  several calls stand as public proof functions beside the passes.
- `tests/` runs the passes on concrete trees.
- `app/` connects the library to swc: conversions between swc's tree and
  the model, the passes as swc visitor hooks (which also make the fresh
  syntax contexts the passes are handed), and the option types as
  configuration files spell them.
