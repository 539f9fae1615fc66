//! A small interpreted scripting language: a lexer, a recursive-descent parser
//! and a tree-walking evaluator over a shared value model. Every function is
//! verified against a mathematical model of the language: the token stream of a
//! source text, the syntax tree of a token stream, and the outcome of running a
//! program on a given input within a given budget.
//!
//! The way of a program through the library:
//!
//! ```text
//! source text --lexer--> tokens --parser--> declarations --interpreter--> output
//! ```
//!
//! The models are in [`lexer`] (`lex`), [`grammar`] (`parse_program`) and
//! [`semantics`] (`run_program`). What holds of every run is proved in
//! [`frames`] (frames are balanced, and the variables of a block do not
//! leak), [`output`] (what is written stays written), [`budget`] and
//! [`input`] (a run that was stopped can be run again with more). [`rounds`]
//! says what to do after a run, so that a program can be run in rounds.

pub mod text;
pub mod lexer;
pub mod value;
pub mod bindings;
pub mod heap;
pub mod scope;
pub mod syntax;
pub mod registry;
pub mod semantics;
pub mod frames;
pub mod output;
pub mod budget;
pub mod input;
pub mod interpreter;
pub mod rounds;
pub mod grammar;
pub mod parser;
pub mod printing;
