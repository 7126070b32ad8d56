//! The attribute decoders.
use super::types::{
    attribute_grammar, bootstrap_method_grammar, code_exceptions, exception_entry_grammar,
    frame_grammar, index_grammar, spec_attribute, spec_bootstrap_method, spec_bootstrap_methods,
    spec_code, spec_code_opt, spec_exception_entry, spec_exceptions, spec_frame, spec_sourcefile,
    spec_stack_map_table, spec_verification_type, spec_verification_types, u16_grammar,
    verification_type_grammar, AttributeInfo, BootstrapMethod, BootstrapMethodsAttribute,
    CodeAttribute, CodeAttributeOpt, ConstantValueAttribute, ExceptionEntry, ExceptionsAttribute,
    InstructionIndex, SourceFileAttribute, StackMapFrame, StackMapTableAttribute,
    VerificationTypeInfo,
};
use crate::constant_pool::ConstantPoolIndexRaw;
use crate::parser::{
    repeat, be_u16, be_u8, decodes, decodes_view, lemma_advance_twice, take, u16_at, u32_at, ParseData,
    ParseError,
};
use crate::util::{count, count_view, skip_count, skips};
use vstd::prelude::*;

verus! {

/// Walks past one attribute without keeping it.
pub fn skip_attribute_parser<'a>(i: ParseData<'a>) -> (r: Result<ParseData<'a>, ParseError>)
    ensures
        skips(i, r, spec_attribute(i.bytes(), i.start())),
{
    let (j, h) = take(i, 6)?;
    let len = u32_at(h.data(), 2);
    let (k, _) = take(j, len as usize)?;
    proof {
        lemma_advance_twice(i, j, k, 6, len as int);
    }
    Ok(k)
}

/// One attribute, as a record of where its bytes lie.
pub fn attribute_parser<'a>(i: ParseData<'a>) -> (r: Result<(ParseData<'a>, AttributeInfo), ParseError>)
    ensures
        decodes(i, r, spec_attribute(i.bytes(), i.start())),
{
    let (j, h) = take(i, 6)?;
    let name = u16_at(h.data(), 0);
    let len = u32_at(h.data(), 2);
    let (k, info) = take(j, len as usize)?;
    proof {
        lemma_advance_twice(i, j, k, 6, len as int);
    }
    Ok((
        k,
        AttributeInfo {
            attribute_name_index: ConstantPoolIndexRaw(name),
            attribute_length: len,
            info: info.as_range(),
        },
    ))
}

pub fn exception_entry_parser<'a>(i: ParseData<'a>) -> (r: Result<(ParseData<'a>, ExceptionEntry), ParseError>)
    ensures
        decodes(i, r, spec_exception_entry(i.bytes())),
{
    let (j, h) = take(i, 8)?;
    let d = h.data();
    Ok((
        j,
        ExceptionEntry {
            start_pc: InstructionIndex(u16_at(d, 0)),
            end_pc: InstructionIndex(u16_at(d, 2)),
            handler_pc: InstructionIndex(u16_at(d, 4)),
            catch_type: ConstantPoolIndexRaw(u16_at(d, 6)),
        },
    ))
}

fn skip_exception_entry_parser<'a>(i: ParseData<'a>) -> (r: Result<ParseData<'a>, ParseError>)
    ensures
        skips(i, r, spec_exception_entry(i.bytes())),
{
    let (j, _) = take(i, 8)?;
    Ok(j)
}

/// The body of a `Code` attribute, with its tables.
pub fn code_attribute_parser<'a>(i: ParseData<'a>) -> (r: Result<(ParseData<'a>, CodeAttribute), ParseError>)
    ensures
        decodes_view(i, r, spec_code(i.bytes(), i.start())),
{
    let (j, h) = take(i, 8)?;
    let d = h.data();
    let max_stack = u16_at(d, 0);
    let max_locals = u16_at(d, 2);
    let code_length = u32_at(d, 4);
    let (k, code) = take(j, code_length as usize)?;
    proof {
        lemma_advance_twice(i, j, k, 8, code_length as int);
    }
    let (l, exception_table_length) = be_u16(k)?;
    proof {
        lemma_advance_twice(i, k, l, 8 + code_length, 2);
    }
    let ghost e = 8 + code_length + 2;
    let (m, exception_table) = count(
        exception_entry_parser,
        Ghost(exception_entry_grammar()),
        l,
        exception_table_length as usize,
    )?;
    let ghost k1 = code_exceptions(i.bytes(), i.start())->Ok_0.1;
    proof {
        lemma_advance_twice(i, l, m, e, k1);
    }
    let (n, attributes_count) = be_u16(m)?;
    proof {
        lemma_advance_twice(i, m, n, e + k1, 2);
    }
    let (o, attributes) = count(attribute_parser, Ghost(attribute_grammar()), n, attributes_count as usize)?;
    proof {
        let k2 = repeat(attribute_grammar(), n.bytes(), n.start(), attributes_count as nat)->Ok_0.1;
        lemma_advance_twice(i, n, o, e + k1 + 2, k2);
    }
    Ok((
        o,
        CodeAttribute {
            max_stack,
            max_locals,
            code_length,
            code: code.as_range(),
            exception_table_length,
            exception_table,
            attributes_count,
            attributes,
        },
    ))
}

/// The body of a `Code` attribute, walking past its tables and keeping
/// where they start.
pub fn code_attribute_opt_parser<'a>(i: ParseData<'a>) -> (r: Result<(ParseData<'a>, CodeAttributeOpt), ParseError>)
    ensures
        decodes(i, r, spec_code_opt(i.bytes(), i.start())),
{
    let (j, h) = take(i, 8)?;
    let d = h.data();
    let max_stack = u16_at(d, 0);
    let max_locals = u16_at(d, 2);
    let code_length = u32_at(d, 4);
    let (k, code) = take(j, code_length as usize)?;
    proof {
        lemma_advance_twice(i, j, k, 8, code_length as int);
    }
    let (l, exception_table_length) = be_u16(k)?;
    proof {
        lemma_advance_twice(i, k, l, 8 + code_length, 2);
    }
    let ghost e = 8 + code_length + 2;
    let exception_table_start = l.pos();
    let m = skip_count::<ExceptionEntry, _>(
        skip_exception_entry_parser,
        Ghost(exception_entry_grammar()),
        l,
        exception_table_length as usize,
    )?;
    let ghost k1 = code_exceptions(i.bytes(), i.start())->Ok_0.1;
    proof {
        lemma_advance_twice(i, l, m, e, k1);
    }
    let (n, attributes_count) = be_u16(m)?;
    proof {
        lemma_advance_twice(i, m, n, e + k1, 2);
    }
    let attributes_start = n.pos();
    let o = skip_count::<AttributeInfo, _>(skip_attribute_parser, Ghost(attribute_grammar()), n, attributes_count as usize)?;
    proof {
        let k2 = repeat(attribute_grammar(), n.bytes(), n.start(), attributes_count as nat)->Ok_0.1;
        lemma_advance_twice(i, n, o, e + k1 + 2, k2);
    }
    Ok((
        o,
        CodeAttributeOpt {
            max_stack,
            max_locals,
            code_range: code.as_range(),
            exception_table_length,
            exception_table_start,
            attributes_count,
            attributes_start,
        },
    ))
}

fn verification_type_parser<'a>(i: ParseData<'a>) -> (r: Result<(ParseData<'a>, VerificationTypeInfo), ParseError>)
    ensures
        decodes(i, r, spec_verification_type(i.bytes())),
{
    let (j, t) = be_u8(i)?;
    if t <= 6 {
        let v = if t == 0 {
            VerificationTypeInfo::Top
        } else if t == 1 {
            VerificationTypeInfo::Integer
        } else if t == 2 {
            VerificationTypeInfo::Float
        } else if t == 3 {
            VerificationTypeInfo::Double
        } else if t == 4 {
            VerificationTypeInfo::Long
        } else if t == 5 {
            VerificationTypeInfo::Null
        } else {
            VerificationTypeInfo::UninitializedThis
        };
        Ok((j, v))
    } else if t <= 8 {
        let (k, x) = be_u16(j)?;
        proof {
            lemma_advance_twice(i, j, k, 1, 2);
        }
        if t == 7 {
            Ok((k, VerificationTypeInfo::Object { class: ConstantPoolIndexRaw(x) }))
        } else {
            Ok((k, VerificationTypeInfo::Uninitialized { offset: x }))
        }
    } else {
        Err(ParseError::UnrecognizedVerificationTag(t))
    }
}

fn stack_map_frame_entry_parser<'a>(i: ParseData<'a>) -> (r: Result<(ParseData<'a>, StackMapFrame), ParseError>)
    ensures
        decodes_view(i, r, spec_frame(i.bytes(), i.start())),
{
    let (j, frame_type) = be_u8(i)?;
    if frame_type <= 63 {
        return Ok((j, StackMapFrame::SameFrame { frame_type }));
    }
    if frame_type <= 127 {
        let (k, stack) = verification_type_parser(j)?;
        proof {
            lemma_advance_twice(i, j, k, 1, spec_verification_type(j.bytes())->Ok_0.1);
        }
        return Ok((k, StackMapFrame::SameLocals1StackItemFrame { frame_type, stack }));
    }
    if frame_type < 247 {
        return Err(ParseError::UnrecognizedFrameTag(frame_type));
    }
    let (k, offset_delta) = be_u16(j)?;
    proof {
        lemma_advance_twice(i, j, k, 1, 2);
    }
    if frame_type == 247 {
        let (l, stack) = verification_type_parser(k)?;
        proof {
            lemma_advance_twice(i, k, l, 3, spec_verification_type(k.bytes())->Ok_0.1);
        }
        return Ok((l, StackMapFrame::SameLocals1StackItemFrameExtended { frame_type, offset_delta, stack }));
    }
    if frame_type <= 250 {
        return Ok((k, StackMapFrame::ChopFrame { frame_type, offset_delta }));
    }
    if frame_type == 251 {
        return Ok((k, StackMapFrame::SameFrameExtended { frame_type, offset_delta }));
    }
    if frame_type <= 254 {
        let (l, locals) = count(
            verification_type_parser,
            Ghost(verification_type_grammar()),
            k,
            (frame_type - 251) as usize,
        )?;
        proof {
            let n = spec_verification_types(k.bytes(), k.start(), (frame_type - 251) as nat)->Ok_0.1;
            lemma_advance_twice(i, k, l, 3, n);
        }
        return Ok((l, StackMapFrame::AppendFrame { frame_type, offset_delta, locals }));
    }
    let (l, number_of_locals) = be_u16(k)?;
    proof {
        lemma_advance_twice(i, k, l, 3, 2);
    }
    let (m, locals) = count(
        verification_type_parser,
        Ghost(verification_type_grammar()),
        l,
        number_of_locals as usize,
    )?;
    let ghost k1 = spec_verification_types(l.bytes(), l.start(), number_of_locals as nat)->Ok_0.1;
    proof {
        lemma_advance_twice(i, l, m, 5, k1);
    }
    let (n, number_of_stack_items) = be_u16(m)?;
    proof {
        lemma_advance_twice(i, m, n, 5 + k1, 2);
    }
    let (o, stack) = count(
        verification_type_parser,
        Ghost(verification_type_grammar()),
        n,
        number_of_stack_items as usize,
    )?;
    proof {
        let k2 = spec_verification_types(n.bytes(), n.start(), number_of_stack_items as nat)->Ok_0.1;
        lemma_advance_twice(i, n, o, 5 + k1 + 2, k2);
    }
    Ok((
        o,
        StackMapFrame::FullFrame {
            frame_type,
            offset_delta,
            number_of_locals,
            locals,
            number_of_stack_items,
            stack,
        },
    ))
}

/// The body of a `StackMapTable` attribute.
pub fn stack_map_table_attribute_parser<'a>(input: ParseData<'a>) -> (r: Result<(ParseData<'a>, StackMapTableAttribute), ParseError>)
    ensures
        decodes_view(input, r, spec_stack_map_table(input.bytes(), input.start())),
{
    let (j, number_of_entries) = be_u16(input)?;
    let (k, entries) = count_view(stack_map_frame_entry_parser, Ghost(frame_grammar()), j, number_of_entries as usize)?;
    proof {
        let n = repeat(frame_grammar(), j.bytes(), j.start(), number_of_entries as nat)->Ok_0.1;
        lemma_advance_twice(input, j, k, 2, n);
    }
    Ok((k, StackMapTableAttribute { number_of_entries, entries }))
}

pub(crate) fn index_parser<'a>(i: ParseData<'a>) -> (r: Result<(ParseData<'a>, ConstantPoolIndexRaw), ParseError>)
    ensures
        decodes(i, r, (index_grammar())(i.bytes(), i.start())),
{
    let (j, v) = be_u16(i)?;
    Ok((j, ConstantPoolIndexRaw(v)))
}

/// The body of an `Exceptions` attribute.
pub fn exceptions_attribute_parser<'a>(input: ParseData<'a>) -> (r: Result<(ParseData<'a>, ExceptionsAttribute), ParseError>)
    ensures
        decodes_view(input, r, spec_exceptions(input.bytes(), input.start())),
{
    let (j, exception_table_length) = be_u16(input)?;
    let (k, exception_table) = count(index_parser, Ghost(index_grammar()), j, exception_table_length as usize)?;
    proof {
        let n = repeat(index_grammar(), j.bytes(), j.start(), exception_table_length as nat)->Ok_0.1;
        lemma_advance_twice(input, j, k, 2, n);
    }
    Ok((k, ExceptionsAttribute { exception_table_length, exception_table }))
}

/// The body of a `ConstantValue` attribute.
pub fn constant_value_attribute_parser<'a>(input: ParseData<'a>) -> (r: Result<(ParseData<'a>, ConstantValueAttribute), ParseError>)
    ensures
        decodes(
            input,
            r,
            crate::parser::fixed(
                input.bytes(),
                2,
                ConstantValueAttribute { constant_value_index: crate::parser::spec_u16(input.bytes()) },
            ),
        ),
{
    let (j, constant_value_index) = be_u16(input)?;
    Ok((j, ConstantValueAttribute { constant_value_index }))
}

fn u16_parser<'a>(i: ParseData<'a>) -> (r: Result<(ParseData<'a>, u16), ParseError>)
    ensures
        decodes(i, r, (u16_grammar())(i.bytes(), i.start())),
{
    be_u16(i)
}

fn bootstrap_method_parser<'a>(input: ParseData<'a>) -> (r: Result<(ParseData<'a>, BootstrapMethod), ParseError>)
    ensures
        decodes_view(input, r, spec_bootstrap_method(input.bytes(), input.start())),
{
    let (j, h) = take(input, 4)?;
    let bootstrap_method_ref = u16_at(h.data(), 0);
    let num_bootstrap_arguments = u16_at(h.data(), 2);
    let (k, bootstrap_arguments) = count(u16_parser, Ghost(u16_grammar()), j, num_bootstrap_arguments as usize)?;
    proof {
        let n = repeat(u16_grammar(), j.bytes(), j.start(), num_bootstrap_arguments as nat)->Ok_0.1;
        lemma_advance_twice(input, j, k, 4, n);
    }
    Ok((k, BootstrapMethod { bootstrap_method_ref, num_bootstrap_arguments, bootstrap_arguments }))
}

/// The body of a `BootstrapMethods` attribute.
pub fn bootstrap_methods_attribute_parser<'a>(input: ParseData<'a>) -> (r: Result<(ParseData<'a>, BootstrapMethodsAttribute), ParseError>)
    ensures
        decodes_view(input, r, spec_bootstrap_methods(input.bytes(), input.start())),
{
    let (j, num_bootstrap_methods) = be_u16(input)?;
    let (k, bootstrap_methods) = count_view(
        bootstrap_method_parser,
        Ghost(bootstrap_method_grammar()),
        j,
        num_bootstrap_methods as usize,
    )?;
    proof {
        let n = repeat(bootstrap_method_grammar(), j.bytes(), j.start(), num_bootstrap_methods as nat)->Ok_0.1;
        lemma_advance_twice(input, j, k, 2, n);
    }
    Ok((k, BootstrapMethodsAttribute { num_bootstrap_methods, bootstrap_methods }))
}

/// A whole `SourceFile` attribute, with its own header.
pub fn sourcefile_attribute_parser<'a>(input: ParseData<'a>) -> (r: Result<(ParseData<'a>, SourceFileAttribute), ParseError>)
    ensures
        decodes(input, r, spec_sourcefile(input.bytes())),
{
    let (j, h) = take(input, 8)?;
    let d = h.data();
    Ok((
        j,
        SourceFileAttribute {
            attribute_name_index: u16_at(d, 0),
            attribute_length: u32_at(d, 2),
            sourcefile_index: ConstantPoolIndexRaw(u16_at(d, 6)),
        },
    ))
}

} // verus!
