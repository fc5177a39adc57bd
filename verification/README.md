# kismet

Kismet is a small expression language for dice rolls (`2d6`, `d20 + 3`, lists,
dictionaries, blocks).  This crate holds its lexer, parser, compiler and
evaluator, each function with a contract proved by Verus.

Layout:

- `src/lexer` — the lexer: `scan.rs` states what the token at each place of
  the text is, `lex.rs` computes it; literals are read with `syn`.
- `src/parser` — a recursive-descent parser over the tokens; every parse reads
  forward, stays inside the input, and never reads a lexical error.  The
  grammar itself is written down as relations between token ranges and trees
  (`grammar.rs`, `target_grammar.rs`), and each parsing function is proved to
  return only trees that the grammar relates to the tokens it consumed.  For
  the following forms the contracts also say that the parse succeeds and
  with which tree: display items, at every level of the expression grammar
  (atoms, signed atoms, dice `d6` and `2d6`, `a + b`, `a < b`, and calls of
  a name and list displays whose arguments and items are again display
  items, nested to any depth: `[-1, f(a * 2, []), g(b == 2)]`); the range
  forms; tuples of atoms (`()`, `(a)`, `(a,)`, `(a, b, ...)`); dictionaries
  of names and `name: item` entries (`{a: [1, 2], b: f(c), d,}`); blocks
  (`{a; b}`); list and dictionary items (`a: [b]`, `...[a, b]`); dictionary
  targets with defaults followed by a name (`{b, a = 1, c}`); `if`, `while`,
  `for` and `loop` whose blocks hold atoms and `a + b`; `match` with literal
  arms; subscripts and attributes; functions `x => { a; b + c }` whose
  blocks hold atoms and such operations; assignment targets; and programs
  whose statements are display items (`nested.rs` and `call_form.rs` say
  where each display item ends and the tree it reads as).  A parser that
  only hands on what the parser it calls returned says so.
- `src/ast` — the syntax tree, and the conversions from expressions to
  assignment targets.
- `src/hir` — values, an insertion-ordered dictionary (`indexmap`), the table
  of variables, the instructions, their semantics (`instruction.rs`), the
  semantics of the syntax tree (`meaning.rs`), the shape of what the
  compiler builds (`shape.rs`), and the compiler, proved to build exactly that
  shape and to give instructions that run as the tree evaluates.  `laws.rs`
  states what the compiler keeps: folding constants changes no run, and
  parentheses vanish; `alike.rs`, that any two compilations of one
  expression run alike.
- `src/render` — how trees, tokens and values print; floats are handed out as
  their literal digits, for the caller to print.
- `src/repl.rs` — the shell's settings and its decisions for one line:
  whether it ends the shell, and what running a parsed line gives and does
  to the variables; over a session of lines, a failing line changes no
  variable.
- `app/` — the interactive shell (`clap`, `rustyline`) and the echo bot.
