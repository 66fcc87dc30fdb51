//! A front end for the GraphQL schema definition language.
//!
//! [`schema::grammar::parse_schema`] turns a schema text into a
//! [`schema::ast::Document`]. The text is first cut into tokens
//! ([`tokenizer`]), and the grammar rules then read the tokens from left to
//! right. What each rule accepts, and what it answers on every input, is
//! written down once as a mathematical function in [`syntax`]; the
//! executable rules are proved to compute exactly that function.
//!
//! [`laws`] holds what is true of the rules as a whole: where a node
//! stands, what an extension holds, how many definitions a document has.
//! [`spelling`] says when tokens are the plain way to write a node down,
//! and [`reading`] proves that what is so written is read again as it
//! was. [`shape`] says what every document that is read looks like, and
//! [`writing`] writes such a document down, so that every document that
//! is read can be written and read again. [`lexemes`] and [`names`] carry
//! this from tokens to texts: the writing of a document that was read
//! from a text is a text that is read as the same document.
pub mod position;
pub mod lexical;
pub mod tokenizer;
pub mod error;
pub mod syntax;
pub mod helpers;
pub mod common;
pub mod schema;
pub mod laws;
pub mod spelling;
pub mod reading;
pub mod shape;
pub mod writing;
pub mod lexemes;
pub mod names;
