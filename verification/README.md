# list

A small Lisp-flavoured language, written out as Rust source text,
written in Verus.

- `src/tokenizer.rs` scans a text into tokens. `lex` states the scan as a
  mathematical function over characters; `Tokens::from_str` is proved to
  compute it, and `Tokens::checked_from_str` also reports the texts on which
  the scan would not end. The laws of the scanner (literals and builtin type
  names scan back to themselves, blanks and comments give no token) are proof
  functions at the end of the file.
- `src/parser/` reads tokens into syntax trees, one file per construct. Each
  construct has a grammar function (`parse_if`, `parse_exp`, ...) from token
  sequences to a result and the tokens left, and a reader `try_from` proved to
  agree with it, to leave a suffix of its input, on success to take at
  least one token, and on failure to name one of its own rules last in the
  error's trace of rules. Each syntax node also has `text`, its Rust source text, and
  `to_string` / `write_to`, proved to produce it.
- `src/text.rs` holds what the writers share: joining texts and decimal numbers.
- `src/pattern.rs` is a small tree of pattern tokens.
- `app/main.rs` is the command line program around the library.
