//! Decoding of JVM class files into a structured, queryable form, eagerly or
//! lazily, with every decoder proved against a byte-level grammar.

pub mod attribute_info;
pub mod constant_info;
pub mod constant_pool;
pub mod descriptor;
pub mod field_info;
pub mod method_info;
pub mod parser;
pub mod types;
mod util;

pub use parser::{class_parser, class_parser_opt, ByteRange, ParseData, ParseError};
pub use types::{
    ClassAccessFlags, ClassFile, ClassFileJavaVersion, ClassFileOpt, ClassFileVersion, LoadError,
    OptSmallVec,
};
