//! Attributes: the generic record (name index, length, opaque bytes) and the
//! grammars of the specific attributes that reinterpret those bytes.
pub mod parser;

pub use self::parser::{
    attribute_parser, bootstrap_methods_attribute_parser, code_attribute_opt_parser,
    code_attribute_parser, constant_value_attribute_parser, exception_entry_parser,
    exceptions_attribute_parser, skip_attribute_parser, sourcefile_attribute_parser,
    stack_map_table_attribute_parser,
};
pub use self::types::{
    AttributeInfo, BootstrapMethod, BootstrapMethodsAttribute, CodeAttribute, CodeAttributeOpt,
    ConstantValueAttribute, ExceptionEntry, ExceptionsAttribute, InstructionIndex, SourceFileAttribute,
    StackMapFrame, StackMapTableAttribute, VerificationTypeInfo,
};

pub mod types;
