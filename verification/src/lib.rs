//! A front end for the xasm scripting language: a parser from source text to
//! a syntax tree, and a compiler from that tree to the instruction text of a
//! stack machine, rendered by interchangeable backend profiles.

pub mod text;
pub mod token;
pub mod depth;
pub mod target;
pub mod backend;
pub mod rust;
pub mod golang;
pub mod lower;
pub mod emit;
pub mod desugar;
pub mod laws;
pub mod operation;
pub mod lexer;
pub mod grammar;
pub mod grammar_laws;
pub mod depth_laws;
pub mod tokens;
pub mod comments;
pub mod layout;
pub mod report;
pub mod parser;
pub mod compile;

pub use compile::{compile, compile_within};
pub use golang::Golang;
pub use parser::{parse, parse_within, MAX_DEPTH};
pub use report::ParseError;
pub use rust::Rust;
pub use target::{Compile, Error, Target, MACHINE_NAME};
pub use token::{
    Expr, FnCall, Function, FunctionDef, Identifier, Literal, Name, StructDef, Suite, Value,
};
