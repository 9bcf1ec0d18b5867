//! Front end of a small C compiler: a verified lexical analyzer that turns
//! preprocessed source text into a flat, position-annotated token stream, and
//! the argument resolution that selects a source file and a compile stage.

pub mod args;
pub mod lexer;
pub mod token;
