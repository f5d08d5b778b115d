//! A small expression language: a scanner from bytes to tokens, a
//! recursive-descent parser from tokens to an expression tree, and an
//! evaluator from the tree to a value.
//!
//! Numbers are IEEE-754 binary64 values, held throughout as their 64-bit
//! patterns so that every rule of the language is stated over integers.

pub mod grammar;
pub mod interpreter;
pub mod lexeme;
pub mod number;
pub mod parser;
pub mod pipeline;
pub mod scanner;
pub mod text;
pub mod token;
