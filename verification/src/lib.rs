//! An interpreter for a small imperative, label/goto-structured scripting
//! language: a lexer with lexical import splicing, a fixed-shape statement
//! parser, and a tree-walking virtual machine with a shared-array value
//! model, label-based control flow, and a native-function registry.

pub mod errors;
pub mod fp;
pub mod laws;
pub mod lexer;
pub mod parser;
pub mod statements;
pub mod stdlib;
pub mod strutil;
pub mod token;
pub mod value;
pub mod vm;

pub use errors::{Error, ErrorLocation};
