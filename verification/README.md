# mdcpl

The front end of a small C compiler, written in Verus.

- `src/driver/arg_driver.rs` classifies command-line arguments and folds
  them into compiler options.
- `src/driver/mod.rs` names the intermediate files and lists the steps each
  input file goes through, with the arguments of the external commands.
- `src/diagnostics.rs` records and counts diagnostics and renders them as
  text.
- `src/lexer/` walks the text of a preprocessed file character by character
  (UTF-8 aware), tracking byte offset, line and column.
- `src/parser/` is a recursive-descent parser; `grammar.rs` describes, as
  functions on the token sequence, what each parsing routine produces.
- `src/text.rs` holds string helpers (comparisons, decimal rendering and
  parsing).
- `app/main.rs` is the command: it runs the preprocessor and the linker,
  reads files, and prints.
