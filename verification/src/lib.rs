//! A small expression language front end.
//!
//! Source text goes through three stages: the [`lexer`] cuts it into tokens,
//! the [`parser`] builds a syntax tree ([`ast`]) from them by precedence
//! climbing, and visitors ([`visitor`]) walk the tree. Two kinds of visitor
//! are here: the renderers of [`printer`], which lay out the pieces of the
//! tree's display, and the evaluator of [`evaluator`], which lays out the
//! steps that compute the tree's value.
//!
//! Numbers are 64-bit floating-point numbers to whoever runs the steps or
//! writes out the pieces. The library itself never computes with them: it
//! holds a number as the decimal text that denotes it.

pub mod chars;
pub mod lexer;
pub mod ast;
pub mod parser;
pub mod visitor;
pub mod evaluator;
pub mod printer;
