# violette

A compiler for the small language *Violette*: source text is read into
tokens, parsed into a syntax tree, and compiled to C that links against a
small runtime (`vio_runtime.h`, strings and console I/O).

The library is written in Verus. Every stage has a specification stated over
mathematical values, and the code is proved to meet it:

- `lexer`: `scan` says which tokens (with their spans) a text consists of;
  `Lexer` produces exactly those.
- `parser`: `grammar` says what a token sequence parses to, or which error it
  gives; `tree` is the syntax tree as mathematical values. `Parser` returns
  exactly that, `spans` erases source locations from trees, and `cloning`
  copies trees, each copy with the same value as the tree it copies.
- `typechecker`: nested scopes of names (`Env`), the types of expressions and
  the struct declarations the code generator needs (`Checker`).
- `codegen`: `spec` and `statements` say which C text an expression,
  statement, block and program become, or which error; `Codegen` produces it.
- `text`: numerals, escapes, UTF-8 lengths, lines and joining.

`app/` holds the command-line driver: it reads the source file, runs the
library, writes the C file and the runtime, and calls the system's C compiler.

The driver goes from parsing straight to code generation: the library's
`Checker` holds the type inference and the struct declarations that code
generation uses, and there is no separate type-checking pass that reports
errors before it. The runtime's C sources are read, when a program is built,
from the `vio_helpers` directory under the current directory.
