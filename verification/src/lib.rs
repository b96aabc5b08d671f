//! Front end of an embeddable scripting language: a recursive-descent parser
//! that turns a stream of tokens into a tree of statements and expressions,
//! tracking lexical scopes and the free variables of closures as it goes.
//!
//! The functions of this crate are verified by Verus against the contracts
//! in their headers. What each production of the parser returns is stated
//! against the grammar in [`grammar`], a mathematical function from tokens
//! to trees. Two things are taken on trust: the two helpers in [`strings`]
//! that call into the standard library, and the hooks of custom syntax that
//! are written outside this crate (see [`engine::SyntaxParser`]).

pub mod position;
pub mod strings;
pub mod token;
pub mod lookup;
pub mod error;
pub mod dynamic;
pub mod ast;
pub mod hashing;
pub mod engine;
pub mod state;
pub mod builder;
pub mod grammar;
pub mod parser;
pub mod call;
pub mod literal;
pub mod switch;
pub mod primary;
pub mod operator;
pub mod custom;
pub mod assign;
pub mod block;
pub mod control;
pub mod declare;
pub mod function;
pub mod statement;
pub mod script;
pub mod laws;
pub mod map_basic;
pub mod resolver;
