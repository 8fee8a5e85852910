//! A compiler front end for a small statically-typed imperative language:
//! a tokenizer that turns source text into line-tagged tokens, and a
//! recursive-descent parser that turns the token sequence into a syntax
//! tree rooted at a file node. Every fatal condition is reported as a
//! typed error value carrying the line of the offending token.

pub mod laws;
pub mod lexer;
pub mod parser;
