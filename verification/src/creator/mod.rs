//! Creating A2L items from definitions embedded in C source comments: the
//! definition model, the comment scanner, the definition parser, and the
//! helpers that name the items of split arrays.

pub mod definitions;
pub mod literals;
pub mod naming;
pub mod overwrite;
pub mod parser;
pub mod scanner;
pub mod split;
