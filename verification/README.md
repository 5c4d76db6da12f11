# rlox

A Lox front end whose logic is proved with Verus: the scanner, the
recursive-descent parser (with the `for` desugaring and error recovery), the
AST printer, the variable resolver, environments, classes and instances, a
Pratt parser for a small expression language, and the bytecode chunk with its
compiler rule table and disassembler.

Layout:

- `src/` the verified library. Each module states its grammar or behaviour as
  spec functions and proves the executable code against them.
- `tests/` tests that run the library on concrete programs.
- `app/` the command-line program: argument parsing, the prompt, reading
  files, and the tree-walking evaluator, whose numbers are `f64`.

Operator precedence and associativity, from loosest to tightest:

| Name       | Operators            | Associates |
|------------|----------------------|------------|
| Assignment | `=`                  | Right      |
| Logic      | `or`                 | Left       |
| Logic      | `and`                | Left       |
| Equality   | `==`, `!=`           | Left       |
| Comparison | `>`, `>=`, `<`, `<=` | Left       |
| Term       | `-`, `+`             | Left       |
| Factor     | `*`, `/`             | Left       |
| Unary      | `!`, `-`             | Right      |
