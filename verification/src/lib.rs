//! A small Lisp-flavoured language, written out as Rust source text:
//! a tokenizer, a recursive-descent parser over the tokens, and a renderer
//! that prints every syntax node as Rust.
pub mod tokenizer;
pub mod parser;
pub mod pattern;
pub mod text;
