//! The grammar of field and method descriptors.
pub mod method;
pub mod types;

pub use self::method::{MethodDescriptor, MethodDescriptorError, MethodDescriptorParserIterator};
pub use self::types::{DescriptorType, DescriptorTypeBasic, DescriptorTypeError};
