//! A scanner for a small C-like scripting language.
//!
//! The scanner walks over the bytes of a source text and hands out one
//! classified token per call. What a token is, is defined once, as a
//! mathematical function of the source bytes and a cursor, in [`grammar`];
//! the executable scanner in [`lexer`] is proved to compute exactly that.
//! [`session`] collects the tokens of a whole text, and [`theorems`] holds
//! what is proved of the grammar for every text.
pub mod charset;
pub mod grammar;
pub mod lexer;
pub mod session;
pub mod theorems;
pub mod token;
