# jimc — a verified front end and C back end for the jim language

`src/` is a Verus library; every function in it is verified against its
contract.

- `lexer`, `lexer_spec`, `token`, `chars`: source text to tokens, with the
  token stream specified character by character.
- `parser`, `parser_spec`: tokens to the AST (`ast`), against a grammar
  written as spec functions.
- `loader`, `driver`: in-memory module loading (`MapLoader`), import
  resolution, `check_loaded` (the type check of a loaded program with its
  errors rendered), the `check` entry point over any `Loader`, and
  `compile_to_c`, the whole in-memory pipeline (load, type check, C).
- `sema`, `typing`, `subst`, `scan`, `copy`: type-level rules of the checker —
  class keys, optionals and coercions, pointer escape, unification and
  substitution of type parameters, scopes, written-type checks, the class
  table entry of a class, template stamping and type scans.
- `declare`, `declare_spec`: the declaration rules of a program (functions,
  classes, name collisions, generic templates, container instances, the
  entry point).
- `calls`, `leaves`, `generic_calls`, `headers`, `stmt_rules`: the rules of
  typing bodies that need no recursion — operators as method calls, field
  and variable access, calls and their targets, generic instance keys,
  function and method headers, jumps and returns.
- `lowering`, `lowering_spec`, `body`, `body_spec`, `members`, `shape`,
  `check`: typing and lowering expressions, statements, functions and
  classes against their specifications, and the whole type check with its
  generic instantiation loop.
- `opt`, `rewrite`, `rewrite_spec`: forwarder inlining and constant folding.
- `reach`, `reach_spec`: reachability from `main` (dead-code elimination).
- `codegen*`, `generate*`, `runtime_filter`, `flow`, `fits`: C emission for
  a type-checked program, and the check that a program fits the emitter.

`tests/` exercises the library from outside; `app/main.rs` is the `jimc`
command line (arguments, the filesystem loader, std, runtime and
C-compiler lookup, and running the C compiler).
