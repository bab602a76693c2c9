//! A small verified library of arithmetic and string exercises, built around
//! a line calculator: a parser for arithmetic commands over `+ - * / ^` and an
//! evaluator that folds the parsed tree while tracking named and anonymous
//! variables in a context.

pub mod basics;
pub mod calc;
pub mod day;
pub mod opt;
pub mod org;
pub mod poly;
pub mod search;
pub mod stats;
pub mod strings;
