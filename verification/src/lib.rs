//! Code generation for mock objects.

pub mod ast;
pub mod error;
pub mod generics;
pub mod laws;
pub mod method;
pub mod method_types;
pub mod mock;
pub mod parse;
pub mod readable;
pub mod structure;
pub mod syntax;
pub mod tokens;
pub mod trait_impl;
pub mod words;
