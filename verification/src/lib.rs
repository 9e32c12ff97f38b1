//! The front end of the Monkey programming language: a tokenizer that turns
//! source text into tokens on demand, the syntax tree that a parser builds
//! from them, and the parser's two-token window over the tokenizer.
//!
//! The lexical grammar is stated once, as mathematics, in [`grammar`]; the
//! tokenizer in [`lexer`] is proved to yield exactly the scans of that
//! grammar, and [`round_trip`] shows that the literals of a token stream
//! scan back to the stream.

pub mod ascii;
pub mod ast;
pub mod grammar;
pub mod lexer;
pub mod parser;
pub mod round_trip;
pub mod token;
