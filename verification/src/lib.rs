//! Gives a function body access to the function's own name.
//!
//! The crate rewrites the tokens of one function definition: the output is
//! the input, copied through in order, with the declaration
//! `const __func__: &str = "<name>";` placed first in the body.
//!
//! Tokens are plain values ([`token::Token`]): a kind and the text that the
//! tokenizer displays for it. [`join::join`] makes them from what the
//! tokenizer hands out, in which an operator such as `->` comes character
//! by character. [`rewrite::rewrite`] turns a sequence of them into the text
//! of the rewritten item, or into a [`diagnostic::Diagnostic`] when the
//! sequence does not hold a function's keyword and name. It does so with a
//! [`scanner::Scanner`], which reads the tokens one by one; what it gives is
//! stated over the places of the keyword, the name and the body
//! ([`rewrite::rewritten`]), and [`laws`] holds what follows for every
//! input. A diagnostic becomes the text of an item that makes the compiler
//! report it ([`diagnostic::error_item`]), with its message escaped as a
//! string literal asks ([`literal`]).

pub mod definition;
pub mod diagnostic;
pub mod join;
pub mod laws;
pub mod literal;
pub mod locate;
pub mod rewrite;
pub mod scanner;
pub mod text;
pub mod token;
