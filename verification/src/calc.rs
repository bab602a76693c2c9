//! The line calculator: commands of the shape `[name =] expression` over
//! `+ - * / ^`, a parser for them, and an evaluator with a variable context.

pub mod context;
pub mod parser;
pub mod syntax;
