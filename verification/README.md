# jang

A small statically scoped language, verified with Verus.

- `src/parser/ast/` — the abstract syntax tree, the builder that resolves
  names while a tree is built (`builder_context`, `var/var_decl_map`), the
  AST's printed form (`source_text`) and the brace-indenting code formatter
  (`code_formatter`).
- `src/interpreter/bytecode/` — the compiler from function declarations to
  block-structured bytecode (`compiler`), stated over an abstract compile
  state; the stack machine that runs it (`machine`), stated as a step
  function `machine_step` and `run`; and the facts that tie them together
  (`jump_targets`: compiled code only jumps to its own blocks, and a running
  machine stays inside its program).
- `src/interpreter/` — values and their operations (`value`), integer
  literals (`parse_as`) and the interpreter that compiles a file and runs
  `main` (`interpreter`).
- `src/adt/arena.rs` — an append-only arena with stable handles.
- `app/` — writing formatted programs to an `io::Write`.
- `tests/` — programs built through the AST builder, compiled and run, and
  unit tests of each part.

Source text is not parsed here: programs are built through
`AstBuilderContext`, as a parser would build them.
