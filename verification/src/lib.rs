//! Lexical and syntactic front end for a style-sheet language: a tokenizer
//! with unlimited bounded lookahead and a recursive-descent parser that
//! classifies selector combinators, reporting located errors on bad input.

pub mod location;
pub mod tokenizer;
pub mod node;
pub mod error;
pub mod parser;
pub mod laws;
