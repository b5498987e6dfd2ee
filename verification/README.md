# MiniSoft compiler

A compiler for MiniSoft, a small teaching language with integer, float and
string values, arrays, constants, conditionals, loops and console I/O.

`src/` is the library, verified with Verus:

- `lexer/`: the tokens, the token patterns and the longest-match scanner,
  `tokenize`, and the classification and reports of lexical errors;
- `parser/`: the syntax tree, the grammar as spec functions, a
  recursive-descent parser proved to follow it, syntax errors and the tree
  drawn as text;
- `semantics/`: the symbol table, the source map from byte positions to lines
  and columns, the analysis (as a spec model and as the checker proved
  against it), semantic errors and the laws of the analysis;
- `codegen/`: quadruples, the translation of a program into them, and their
  translation into NASM assembly for x86-64 Linux;
- `error_reporter.rs` and `text.rs`: report layout (coloured through
  `colored` when the terminal takes colours) and small text utilities.

`app/` is the command-line driver: it reads the file, prints what each phase
finds (with coloured headings), works out the `f32` bits of float constants, writes the
assembly and runs `nasm` and `ld`.
