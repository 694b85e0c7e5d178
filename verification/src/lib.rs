//! A verified model of the derive macro of a command line parser library:
//! it reads a struct or enum definition with its attributes and generates
//! the function that builds the parser.
pub mod tokens;
pub mod text;
pub mod model;
pub mod source;
pub mod syntax;
pub mod attrs;
pub mod top;
pub mod codegen;
pub mod laws;
