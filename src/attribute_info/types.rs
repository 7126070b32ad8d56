//! The values that the attribute decoders produce, what they denote, and the
//! grammars they follow.
use crate::constant_pool::ConstantPoolIndexRaw;
use crate::parser::{fixed, repeat, spec_u16, spec_u32, ByteRange, Decoded, Grammar, ParseError};
use crate::util::views;
use vstd::prelude::*;

verus! {

/// An offset into the code of a `Code` attribute.
#[derive(Debug, Clone, Copy, PartialEq, Eq, PartialOrd, Ord, Hash, Structural)]
pub struct InstructionIndex(pub u16);

/// An attribute as a record: its name, and where its bytes lie in the file.
#[derive(Debug, Clone, Copy, PartialEq, Eq, Structural)]
pub struct AttributeInfo {
    pub attribute_name_index: ConstantPoolIndexRaw,
    pub attribute_length: u32,
    pub info: ByteRange,
}

#[derive(Debug, Clone, Copy, PartialEq, Eq, Structural)]
pub struct ExceptionEntry {
    /// The handler is active from `start_pc` up to `end_pc`.
    pub start_pc: InstructionIndex,
    pub end_pc: InstructionIndex,
    /// Where the handler's code starts.
    pub handler_pc: InstructionIndex,
    /// The class of exception caught; 0 catches every exception.
    pub catch_type: ConstantPoolIndexRaw,
}

#[derive(Debug, Clone, PartialEq, Eq)]
pub struct CodeAttribute {
    pub max_stack: u16,
    pub max_locals: u16,
    pub code_length: u32,
    /// Where the bytecode lies in the file.
    pub code: ByteRange,
    pub exception_table_length: u16,
    pub exception_table: Vec<ExceptionEntry>,
    pub attributes_count: u16,
    pub attributes: Vec<AttributeInfo>,
}

/// What a `CodeAttribute` denotes.
pub struct CodeAttributeModel {
    pub max_stack: u16,
    pub max_locals: u16,
    pub code_length: u32,
    pub code: ByteRange,
    pub exception_table_length: u16,
    pub exception_table: Seq<ExceptionEntry>,
    pub attributes_count: u16,
    pub attributes: Seq<AttributeInfo>,
}

impl View for CodeAttribute {
    type V = CodeAttributeModel;

    open spec fn view(&self) -> CodeAttributeModel {
        CodeAttributeModel {
            max_stack: self.max_stack,
            max_locals: self.max_locals,
            code_length: self.code_length,
            code: self.code,
            exception_table_length: self.exception_table_length,
            exception_table: self.exception_table@,
            attributes_count: self.attributes_count,
            attributes: self.attributes@,
        }
    }
}

/// A `Code` attribute with its tables left in place: where they start.
#[derive(Debug, Clone, Copy, PartialEq, Eq, Structural)]
pub struct CodeAttributeOpt {
    pub max_stack: u16,
    pub max_locals: u16,
    pub code_range: ByteRange,
    pub exception_table_length: u16,
    pub exception_table_start: usize,
    pub attributes_count: u16,
    pub attributes_start: usize,
}

#[derive(Debug, Clone, Copy, PartialEq, Eq, Structural)]
pub enum VerificationTypeInfo {
    Top,
    Integer,
    Float,
    Double,
    Long,
    Null,
    UninitializedThis,
    Object {
        /// The class of the object.
        class: ConstantPoolIndexRaw,
    },
    Uninitialized {
        /// The offset in the code of the `new` that created the object.
        offset: u16,
    },
}

#[derive(Debug, Clone, PartialEq, Eq)]
pub enum StackMapFrame {
    SameFrame { frame_type: u8 },
    SameLocals1StackItemFrame { frame_type: u8, stack: VerificationTypeInfo },
    SameLocals1StackItemFrameExtended { frame_type: u8, offset_delta: u16, stack: VerificationTypeInfo },
    ChopFrame { frame_type: u8, offset_delta: u16 },
    SameFrameExtended { frame_type: u8, offset_delta: u16 },
    AppendFrame { frame_type: u8, offset_delta: u16, locals: Vec<VerificationTypeInfo> },
    FullFrame {
        frame_type: u8,
        offset_delta: u16,
        number_of_locals: u16,
        locals: Vec<VerificationTypeInfo>,
        number_of_stack_items: u16,
        stack: Vec<VerificationTypeInfo>,
    },
}

/// What a `StackMapFrame` denotes.
pub enum StackMapFrameModel {
    SameFrame { frame_type: u8 },
    SameLocals1StackItemFrame { frame_type: u8, stack: VerificationTypeInfo },
    SameLocals1StackItemFrameExtended { frame_type: u8, offset_delta: u16, stack: VerificationTypeInfo },
    ChopFrame { frame_type: u8, offset_delta: u16 },
    SameFrameExtended { frame_type: u8, offset_delta: u16 },
    AppendFrame { frame_type: u8, offset_delta: u16, locals: Seq<VerificationTypeInfo> },
    FullFrame {
        frame_type: u8,
        offset_delta: u16,
        number_of_locals: u16,
        locals: Seq<VerificationTypeInfo>,
        number_of_stack_items: u16,
        stack: Seq<VerificationTypeInfo>,
    },
}

impl View for StackMapFrame {
    type V = StackMapFrameModel;

    open spec fn view(&self) -> StackMapFrameModel {
        match self {
            StackMapFrame::SameFrame { frame_type } => StackMapFrameModel::SameFrame { frame_type: *frame_type },
            StackMapFrame::SameLocals1StackItemFrame { frame_type, stack } => {
                StackMapFrameModel::SameLocals1StackItemFrame { frame_type: *frame_type, stack: *stack }
            },
            StackMapFrame::SameLocals1StackItemFrameExtended { frame_type, offset_delta, stack } => {
                StackMapFrameModel::SameLocals1StackItemFrameExtended {
                    frame_type: *frame_type,
                    offset_delta: *offset_delta,
                    stack: *stack,
                }
            },
            StackMapFrame::ChopFrame { frame_type, offset_delta } => StackMapFrameModel::ChopFrame {
                frame_type: *frame_type,
                offset_delta: *offset_delta,
            },
            StackMapFrame::SameFrameExtended { frame_type, offset_delta } => {
                StackMapFrameModel::SameFrameExtended { frame_type: *frame_type, offset_delta: *offset_delta }
            },
            StackMapFrame::AppendFrame { frame_type, offset_delta, locals } => StackMapFrameModel::AppendFrame {
                frame_type: *frame_type,
                offset_delta: *offset_delta,
                locals: locals@,
            },
            StackMapFrame::FullFrame {
                frame_type,
                offset_delta,
                number_of_locals,
                locals,
                number_of_stack_items,
                stack,
            } => StackMapFrameModel::FullFrame {
                frame_type: *frame_type,
                offset_delta: *offset_delta,
                number_of_locals: *number_of_locals,
                locals: locals@,
                number_of_stack_items: *number_of_stack_items,
                stack: stack@,
            },
        }
    }
}

#[derive(Debug, Clone, PartialEq, Eq)]
pub struct StackMapTableAttribute {
    pub number_of_entries: u16,
    pub entries: Vec<StackMapFrame>,
}

/// What a `StackMapTableAttribute` denotes.
pub struct StackMapTableModel {
    pub number_of_entries: u16,
    pub entries: Seq<StackMapFrameModel>,
}

impl View for StackMapTableAttribute {
    type V = StackMapTableModel;

    open spec fn view(&self) -> StackMapTableModel {
        StackMapTableModel { number_of_entries: self.number_of_entries, entries: views(self.entries@) }
    }
}

#[derive(Debug, Clone, PartialEq, Eq)]
pub struct ExceptionsAttribute {
    pub exception_table_length: u16,
    pub exception_table: Vec<ConstantPoolIndexRaw>,
}

/// What an `ExceptionsAttribute` denotes.
pub struct ExceptionsModel {
    pub exception_table_length: u16,
    pub exception_table: Seq<ConstantPoolIndexRaw>,
}

impl View for ExceptionsAttribute {
    type V = ExceptionsModel;

    open spec fn view(&self) -> ExceptionsModel {
        ExceptionsModel {
            exception_table_length: self.exception_table_length,
            exception_table: self.exception_table@,
        }
    }
}

#[derive(Debug, Clone, Copy, PartialEq, Eq, Structural)]
pub struct ConstantValueAttribute {
    pub constant_value_index: u16,
}

#[derive(Debug, Clone, PartialEq, Eq)]
pub struct BootstrapMethod {
    pub bootstrap_method_ref: u16,
    pub num_bootstrap_arguments: u16,
    pub bootstrap_arguments: Vec<u16>,
}

/// What a `BootstrapMethod` denotes.
pub struct BootstrapMethodModel {
    pub bootstrap_method_ref: u16,
    pub num_bootstrap_arguments: u16,
    pub bootstrap_arguments: Seq<u16>,
}

impl View for BootstrapMethod {
    type V = BootstrapMethodModel;

    open spec fn view(&self) -> BootstrapMethodModel {
        BootstrapMethodModel {
            bootstrap_method_ref: self.bootstrap_method_ref,
            num_bootstrap_arguments: self.num_bootstrap_arguments,
            bootstrap_arguments: self.bootstrap_arguments@,
        }
    }
}

#[derive(Debug, Clone, PartialEq, Eq)]
pub struct BootstrapMethodsAttribute {
    pub num_bootstrap_methods: u16,
    pub bootstrap_methods: Vec<BootstrapMethod>,
}

/// What a `BootstrapMethodsAttribute` denotes.
pub struct BootstrapMethodsModel {
    pub num_bootstrap_methods: u16,
    pub bootstrap_methods: Seq<BootstrapMethodModel>,
}

impl View for BootstrapMethodsAttribute {
    type V = BootstrapMethodsModel;

    open spec fn view(&self) -> BootstrapMethodsModel {
        BootstrapMethodsModel {
            num_bootstrap_methods: self.num_bootstrap_methods,
            bootstrap_methods: views(self.bootstrap_methods@),
        }
    }
}

/// The `SourceFile` attribute, read with its own header. Its length should
/// be 2; that is not checked here.
#[derive(Debug, Clone, Copy, PartialEq, Eq, Structural)]
pub struct SourceFileAttribute {
    /// Should address the `Utf8` constant `SourceFile`.
    pub attribute_name_index: u16,
    pub attribute_length: u32,
    /// Should address a `Utf8` constant: the name of the source file.
    pub sourcefile_index: ConstantPoolIndexRaw,
}

/// A generic attribute: name index, 32-bit length, and that many bytes.
pub open spec fn spec_attribute(s: Seq<u8>, pos: int) -> Decoded<AttributeInfo> {
    if s.len() < 6 || s.len() - 6 < spec_u32(s.skip(2)) {
        Err(ParseError::Incomplete)
    } else {
        let len = spec_u32(s.skip(2));
        Ok((
            AttributeInfo {
                attribute_name_index: ConstantPoolIndexRaw(spec_u16(s)),
                attribute_length: len,
                info: ByteRange { start: (pos + 6) as usize, end: (pos + 6 + len) as usize },
            },
            6 + len,
        ))
    }
}

pub open spec fn attribute_grammar() -> Grammar<AttributeInfo> {
    |s: Seq<u8>, pos: int| spec_attribute(s, pos)
}

/// One entry of an exception table: four 16-bit fields.
pub open spec fn spec_exception_entry(s: Seq<u8>) -> Decoded<ExceptionEntry> {
    fixed(
        s,
        8,
        ExceptionEntry {
            start_pc: InstructionIndex(spec_u16(s)),
            end_pc: InstructionIndex(spec_u16(s.skip(2))),
            handler_pc: InstructionIndex(spec_u16(s.skip(4))),
            catch_type: ConstantPoolIndexRaw(spec_u16(s.skip(6))),
        },
    )
}

pub open spec fn exception_entry_grammar() -> Grammar<ExceptionEntry> {
    |s: Seq<u8>, pos: int| spec_exception_entry(s)
}

/// A 16-bit constant-pool index.
pub open spec fn index_grammar() -> Grammar<ConstantPoolIndexRaw> {
    |s: Seq<u8>, pos: int| fixed(s, 2, ConstantPoolIndexRaw(spec_u16(s)))
}

/// A 16-bit integer.
pub open spec fn u16_grammar() -> Grammar<u16> {
    |s: Seq<u8>, pos: int| fixed(s, 2, spec_u16(s))
}

/// The offset just past the code of a `Code` attribute.
pub open spec fn code_end(s: Seq<u8>) -> int {
    8 + spec_u32(s.skip(4))
}

/// The exception table of a `Code` attribute, after the code.
pub open spec fn code_exceptions(s: Seq<u8>, pos: int) -> Decoded<Seq<ExceptionEntry>> {
    let e = code_end(s);
    repeat(exception_entry_grammar(), s.skip(e + 2), pos + e + 2, spec_u16(s.skip(e)) as nat)
}

/// A `Code` attribute's body: max stack, max locals, the code, the exception
/// table, and the nested attributes.
pub open spec fn spec_code(s: Seq<u8>, pos: int) -> Decoded<CodeAttributeModel> {
    let e = code_end(s);
    if s.len() < 8 || s.len() - 8 < spec_u32(s.skip(4)) || s.len() < e + 2 {
        Err(ParseError::Incomplete)
    } else {
        match code_exceptions(s, pos) {
            Err(err) => Err(err),
            Ok((table, k1)) => {
                let a = e + 2 + k1;
                if s.len() < a + 2 {
                    Err(ParseError::Incomplete)
                } else {
                    match repeat(attribute_grammar(), s.skip(a + 2), pos + a + 2, spec_u16(s.skip(a)) as nat) {
                        Err(err) => Err(err),
                        Ok((attributes, k2)) => Ok((
                            CodeAttributeModel {
                                max_stack: spec_u16(s),
                                max_locals: spec_u16(s.skip(2)),
                                code_length: spec_u32(s.skip(4)),
                                code: ByteRange { start: (pos + 8) as usize, end: (pos + e) as usize },
                                exception_table_length: spec_u16(s.skip(e)),
                                exception_table: table,
                                attributes_count: spec_u16(s.skip(a)),
                                attributes,
                            },
                            a + 2 + k2,
                        )),
                    }
                }
            },
        }
    }
}

/// A `Code` attribute's body read as by `spec_code`, keeping only where its
/// tables start.
pub open spec fn spec_code_opt(s: Seq<u8>, pos: int) -> Decoded<CodeAttributeOpt> {
    match spec_code(s, pos) {
        Err(err) => Err(err),
        Ok((c, k)) => {
            let e = code_end(s);
            let a = e + 2 + code_exceptions(s, pos)->Ok_0.1;
            Ok((
                CodeAttributeOpt {
                    max_stack: c.max_stack,
                    max_locals: c.max_locals,
                    code_range: c.code,
                    exception_table_length: c.exception_table_length,
                    exception_table_start: (pos + e + 2) as usize,
                    attributes_count: c.attributes_count,
                    attributes_start: (pos + a + 2) as usize,
                },
                k,
            ))
        },
    }
}

/// A verification type item: a tag, and for two tags a 16-bit field.
pub open spec fn spec_verification_type(s: Seq<u8>) -> Decoded<VerificationTypeInfo> {
    if s.len() < 1 {
        Err(ParseError::Incomplete)
    } else {
        let t = s[0];
        if t == 0 {
            Ok((VerificationTypeInfo::Top, 1))
        } else if t == 1 {
            Ok((VerificationTypeInfo::Integer, 1))
        } else if t == 2 {
            Ok((VerificationTypeInfo::Float, 1))
        } else if t == 3 {
            Ok((VerificationTypeInfo::Double, 1))
        } else if t == 4 {
            Ok((VerificationTypeInfo::Long, 1))
        } else if t == 5 {
            Ok((VerificationTypeInfo::Null, 1))
        } else if t == 6 {
            Ok((VerificationTypeInfo::UninitializedThis, 1))
        } else if t == 7 {
            fixed(s, 3, VerificationTypeInfo::Object { class: ConstantPoolIndexRaw(spec_u16(s.skip(1))) })
        } else if t == 8 {
            fixed(s, 3, VerificationTypeInfo::Uninitialized { offset: spec_u16(s.skip(1)) })
        } else {
            Err(ParseError::UnrecognizedVerificationTag(t))
        }
    }
}

pub open spec fn verification_type_grammar() -> Grammar<VerificationTypeInfo> {
    |s: Seq<u8>, pos: int| spec_verification_type(s)
}

/// `n` verification type items.
pub open spec fn spec_verification_types(s: Seq<u8>, pos: int, n: nat) -> Decoded<Seq<VerificationTypeInfo>> {
    repeat(verification_type_grammar(), s, pos, n)
}

/// One stack map frame, its shape chosen by its leading tag byte.
pub open spec fn spec_frame(s: Seq<u8>, pos: int) -> Decoded<StackMapFrameModel> {
    if s.len() < 1 {
        Err(ParseError::Incomplete)
    } else {
        let t = s[0];
        let delta = spec_u16(s.skip(1));
        if t <= 63 {
            Ok((StackMapFrameModel::SameFrame { frame_type: t }, 1))
        } else if t <= 127 {
            match spec_verification_type(s.skip(1)) {
                Ok((v, k)) => Ok((StackMapFrameModel::SameLocals1StackItemFrame { frame_type: t, stack: v }, 1 + k)),
                Err(e) => Err(e),
            }
        } else if t < 247 {
            Err(ParseError::UnrecognizedFrameTag(t))
        } else if s.len() < 3 {
            Err(ParseError::Incomplete)
        } else if t == 247 {
            match spec_verification_type(s.skip(3)) {
                Ok((v, k)) => Ok((
                    StackMapFrameModel::SameLocals1StackItemFrameExtended { frame_type: t, offset_delta: delta, stack: v },
                    3 + k,
                )),
                Err(e) => Err(e),
            }
        } else if t <= 250 {
            Ok((StackMapFrameModel::ChopFrame { frame_type: t, offset_delta: delta }, 3))
        } else if t == 251 {
            Ok((StackMapFrameModel::SameFrameExtended { frame_type: t, offset_delta: delta }, 3))
        } else if t <= 254 {
            match spec_verification_types(s.skip(3), pos + 3, (t - 251) as nat) {
                Ok((vs, k)) => Ok((StackMapFrameModel::AppendFrame { frame_type: t, offset_delta: delta, locals: vs }, 3 + k)),
                Err(e) => Err(e),
            }
        } else if s.len() < 5 {
            Err(ParseError::Incomplete)
        } else {
            let nl = spec_u16(s.skip(3));
            match spec_verification_types(s.skip(5), pos + 5, nl as nat) {
                Err(e) => Err(e),
                Ok((locals, k1)) => {
                    let q = 5 + k1;
                    if s.len() < q + 2 {
                        Err(ParseError::Incomplete)
                    } else {
                        let ns = spec_u16(s.skip(q));
                        match spec_verification_types(s.skip(q + 2), pos + q + 2, ns as nat) {
                            Err(e) => Err(e),
                            Ok((stack, k2)) => Ok((
                                StackMapFrameModel::FullFrame {
                                    frame_type: t,
                                    offset_delta: delta,
                                    number_of_locals: nl,
                                    locals,
                                    number_of_stack_items: ns,
                                    stack,
                                },
                                q + 2 + k2,
                            )),
                        }
                    }
                },
            }
        }
    }
}

pub open spec fn frame_grammar() -> Grammar<StackMapFrameModel> {
    |s: Seq<u8>, pos: int| spec_frame(s, pos)
}

/// A `StackMapTable` attribute's body: a count and that many frames.
pub open spec fn spec_stack_map_table(s: Seq<u8>, pos: int) -> Decoded<StackMapTableModel> {
    if s.len() < 2 {
        Err(ParseError::Incomplete)
    } else {
        match repeat(frame_grammar(), s.skip(2), pos + 2, spec_u16(s) as nat) {
            Ok((frames, k)) => Ok((StackMapTableModel { number_of_entries: spec_u16(s), entries: frames }, 2 + k)),
            Err(e) => Err(e),
        }
    }
}

/// An `Exceptions` attribute's body: a count and that many class indices.
pub open spec fn spec_exceptions(s: Seq<u8>, pos: int) -> Decoded<ExceptionsModel> {
    if s.len() < 2 {
        Err(ParseError::Incomplete)
    } else {
        match repeat(index_grammar(), s.skip(2), pos + 2, spec_u16(s) as nat) {
            Ok((table, k)) => Ok((ExceptionsModel { exception_table_length: spec_u16(s), exception_table: table }, 2 + k)),
            Err(e) => Err(e),
        }
    }
}

/// One bootstrap method: a method handle index and its argument indices.
pub open spec fn spec_bootstrap_method(s: Seq<u8>, pos: int) -> Decoded<BootstrapMethodModel> {
    if s.len() < 4 {
        Err(ParseError::Incomplete)
    } else {
        let n = spec_u16(s.skip(2));
        match repeat(u16_grammar(), s.skip(4), pos + 4, n as nat) {
            Ok((args, k)) => Ok((
                BootstrapMethodModel {
                    bootstrap_method_ref: spec_u16(s),
                    num_bootstrap_arguments: n,
                    bootstrap_arguments: args,
                },
                4 + k,
            )),
            Err(e) => Err(e),
        }
    }
}

pub open spec fn bootstrap_method_grammar() -> Grammar<BootstrapMethodModel> {
    |s: Seq<u8>, pos: int| spec_bootstrap_method(s, pos)
}

/// A `BootstrapMethods` attribute's body: a count and that many methods.
pub open spec fn spec_bootstrap_methods(s: Seq<u8>, pos: int) -> Decoded<BootstrapMethodsModel> {
    if s.len() < 2 {
        Err(ParseError::Incomplete)
    } else {
        match repeat(bootstrap_method_grammar(), s.skip(2), pos + 2, spec_u16(s) as nat) {
            Ok((ms, k)) => Ok((BootstrapMethodsModel { num_bootstrap_methods: spec_u16(s), bootstrap_methods: ms }, 2 + k)),
            Err(e) => Err(e),
        }
    }
}

/// A whole `SourceFile` attribute: its header and the file name's index.
pub open spec fn spec_sourcefile(s: Seq<u8>) -> Decoded<SourceFileAttribute> {
    fixed(
        s,
        8,
        SourceFileAttribute {
            attribute_name_index: spec_u16(s),
            attribute_length: spec_u32(s.skip(2)),
            sourcefile_index: ConstantPoolIndexRaw(spec_u16(s.skip(6))),
        },
    )
}

} // verus!
