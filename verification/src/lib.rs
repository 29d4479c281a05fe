//! Lexical analysis for the Yuniye language: a byte buffer goes in, a
//! stream of tokens comes out, each with the line and the column of its
//! first byte.
//!
//! [`lexer::Lexer`] hands out one token at each pull, and
//! [`stream::tokenize`] reads a whole buffer. What a pull does is
//! [`lexer::step`], a function of the buffer and of where the lexer stands;
//! [`laws`] holds what follows from it for every buffer. A lexical error is
//! handed out like a token, with its place, and the lexer goes on behind
//! the text that it is about.
//!
//! [`command`] holds the two texts that the `yuniye` tool prints about
//! itself.

pub mod bytes;
pub mod command;
pub mod comment;
pub mod indent;
pub mod laws;
pub mod lexeme;
pub mod lexer;
pub mod number;
pub mod piece;
pub mod position;
pub mod punct;
pub mod quoted;
pub mod render;
pub mod stream;
pub mod text;
pub mod token;
