//! Lexical front end of a small dynamically-typed scripting language.
//!
//! [`scanner::scan`] turns source text into an ordered sequence of
//! [`token::Token`]s and a list of diagnostics in one synchronous pass; a
//! [`scanner::Scanner`] does the same step by step.  What they give is
//! stated against [`grammar`], the language's lexical grammar written as
//! functions on sequences of characters, and [`laws`] holds what follows
//! from it for every text.
//!
//! [`generate_ast`] is a tool apart: it writes out the declarations of the
//! syntax tree that the parser stage is built on.

pub mod error;
pub mod generate_ast;
pub mod grammar;
pub mod laws;
pub mod scanner;
pub mod text;
pub mod token;

pub use error::ErrorKind;
pub use error::LoxError;
