//! Lexical front end and dynamic value model of a small interpreted language.
//!
//! [`lexer`] turns source text into [`types::token::Token`]s; [`types`] holds
//! the token and value types together with the value algorithms; [`chars`]
//! holds what both take from `std` for characters and strings.

pub mod chars;
pub mod lexer;
pub mod types;
