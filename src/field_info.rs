//! Field records, and the record layout that fields and methods share:
//! access flags, name index, descriptor index, and a counted attribute list.
use crate::attribute_info::parser::{attribute_parser, constant_value_attribute_parser, skip_attribute_parser};
use crate::attribute_info::types::{attribute_grammar, AttributeInfo};
use crate::constant_pool::{ConstantPool, ConstantPoolIndexRaw};
use crate::constant_info::ConstantInfo;
use crate::method_info::{attributes_search_parser, spec_search};
use crate::parser::{
    decodes, decodes_view, lemma_advance_twice, repeat, spec_u16, take, u16_at, Decoded,
    Grammar, ParseData, ParseError,
};
use crate::util::{count, skip_count, skips};
use vstd::prelude::*;

verus! {

/// The bits that name a field access flag.
pub const FIELD_FLAGS_ALL: u16 = 0x70DF;

/// The access flags of a field.
#[derive(Debug, Clone, Copy, PartialEq, Eq, Hash, Structural)]
pub struct FieldAccessFlags {
    pub bits: u16,
}

impl FieldAccessFlags {
    pub const PUBLIC: u16 = 0x0001;
    pub const PRIVATE: u16 = 0x0002;
    pub const PROTECTED: u16 = 0x0004;
    pub const STATIC: u16 = 0x0008;
    pub const FINAL: u16 = 0x0010;
    pub const VOLATILE: u16 = 0x0040;
    pub const TRANSIENT: u16 = 0x0080;
    pub const SYNTHETIC: u16 = 0x1000;
    pub const ANNOTATION: u16 = 0x2000;
    pub const ENUM: u16 = 0x4000;

    /// The flags among `bits`; other bits are dropped.
    pub fn from_bits_truncate(bits: u16) -> (r: FieldAccessFlags)
        ensures
            r.bits == bits & FIELD_FLAGS_ALL,
    {
        FieldAccessFlags { bits: bits & FIELD_FLAGS_ALL }
    }

    pub fn bits(&self) -> (r: u16)
        ensures
            r == self.bits,
    {
        self.bits
    }

    /// Whether every flag of `flags` is set.
    pub fn contains(&self, flags: u16) -> (r: bool)
        ensures
            r == (self.bits & flags == flags),
    {
        self.bits & flags == flags
    }
}

/// A field with its attribute records.
#[derive(Debug, Clone, PartialEq, Eq)]
pub struct FieldInfo {
    pub access_flags: FieldAccessFlags,
    pub name_index: ConstantPoolIndexRaw,
    pub descriptor_index: ConstantPoolIndexRaw,
    pub attributes_count: u16,
    pub attributes: Vec<AttributeInfo>,
}

/// What a `FieldInfo` denotes.
pub struct FieldInfoModel {
    pub access_flags: FieldAccessFlags,
    pub name_index: ConstantPoolIndexRaw,
    pub descriptor_index: ConstantPoolIndexRaw,
    pub attributes_count: u16,
    pub attributes: Seq<AttributeInfo>,
}

impl View for FieldInfo {
    type V = FieldInfoModel;

    open spec fn view(&self) -> FieldInfoModel {
        FieldInfoModel {
            access_flags: self.access_flags,
            name_index: self.name_index,
            descriptor_index: self.descriptor_index,
            attributes_count: self.attributes_count,
            attributes: self.attributes@,
        }
    }
}

/// A field without its attributes: only how many there are.
#[derive(Debug, Clone, Copy, PartialEq, Eq, Structural)]
pub struct FieldInfoOpt {
    pub access_flags: FieldAccessFlags,
    pub name_index: ConstantPoolIndexRaw,
    pub descriptor_index: ConstantPoolIndexRaw,
    pub attributes_count: u16,
}

/// The fixed part of a field or method record: flags, name index,
/// descriptor index, attribute count.
pub type MemberHeader = (u16, u16, u16, u16);

pub open spec fn spec_member_header(s: Seq<u8>) -> MemberHeader {
    (spec_u16(s), spec_u16(s.skip(2)), spec_u16(s.skip(4)), spec_u16(s.skip(6)))
}

/// A field or method record: the fixed part, then its attributes.
pub open spec fn spec_member(s: Seq<u8>, pos: int) -> Decoded<(MemberHeader, Seq<AttributeInfo>)> {
    if s.len() < 8 {
        Err(ParseError::Incomplete)
    } else {
        match repeat(attribute_grammar(), s.skip(8), pos + 8, spec_u16(s.skip(6)) as nat) {
            Ok((attributes, k)) => Ok(((spec_member_header(s), attributes), 8 + k)),
            Err(e) => Err(e),
        }
    }
}

pub open spec fn spec_field(s: Seq<u8>, pos: int) -> Decoded<FieldInfoModel> {
    match spec_member(s, pos) {
        Ok(((h, attributes), k)) => Ok((
            FieldInfoModel {
                access_flags: FieldAccessFlags { bits: h.0 & FIELD_FLAGS_ALL },
                name_index: ConstantPoolIndexRaw(h.1),
                descriptor_index: ConstantPoolIndexRaw(h.2),
                attributes_count: h.3,
                attributes,
            },
            k,
        )),
        Err(e) => Err(e),
    }
}

pub open spec fn field_grammar() -> Grammar<FieldInfoModel> {
    |s: Seq<u8>, pos: int| spec_field(s, pos)
}

/// A field record read as by `spec_field`, keeping its fixed part only.
pub open spec fn spec_field_opt(s: Seq<u8>, pos: int) -> Decoded<FieldInfoOpt> {
    match spec_field(s, pos) {
        Ok((f, k)) => Ok((
            FieldInfoOpt {
                access_flags: f.access_flags,
                name_index: f.name_index,
                descriptor_index: f.descriptor_index,
                attributes_count: f.attributes_count,
            },
            k,
        )),
        Err(e) => Err(e),
    }
}

/// The fixed part of a field or method record.
pub(crate) fn member_header_parser<'a>(i: ParseData<'a>) -> (r: Result<(ParseData<'a>, MemberHeader), ParseError>)
    ensures
        decodes(i, r, crate::parser::fixed(i.bytes(), 8, spec_member_header(i.bytes()))),
{
    let (j, h) = take(i, 8)?;
    let d = h.data();
    Ok((j, (u16_at(d, 0), u16_at(d, 2), u16_at(d, 4), u16_at(d, 6))))
}

/// A field or method record with its attribute records.
pub(crate) fn member_parser<'a>(i: ParseData<'a>) -> (r: Result<(ParseData<'a>, (MemberHeader, Vec<AttributeInfo>)), ParseError>)
    ensures
        match r {
            Ok((next, (h, a))) => decodes(i, Ok((next, (h, a@))), spec_member(i.bytes(), i.start())),
            Err(e) => spec_member(i.bytes(), i.start()) == Decoded::<(MemberHeader, Seq<AttributeInfo>)>::Err(e),
        },
{
    let (j, h) = member_header_parser(i)?;
    let (k, attributes) = count(attribute_parser, Ghost(attribute_grammar()), j, h.3 as usize)?;
    proof {
        let n = repeat(attribute_grammar(), j.bytes(), j.start(), h.3 as nat)->Ok_0.1;
        lemma_advance_twice(i, j, k, 8, n);
    }
    Ok((k, (h, attributes)))
}

/// Walks past a field or method record.
pub(crate) fn skip_member_parser<'a>(i: ParseData<'a>) -> (r: Result<ParseData<'a>, ParseError>)
    ensures
        skips(i, r, spec_member(i.bytes(), i.start())),
{
    let (j, h) = member_header_parser(i)?;
    let k = skip_count::<AttributeInfo, _>(skip_attribute_parser, Ghost(attribute_grammar()), j, h.3 as usize)?;
    proof {
        let n = repeat(attribute_grammar(), j.bytes(), j.start(), h.3 as nat)->Ok_0.1;
        lemma_advance_twice(i, j, k, 8, n);
    }
    Ok(k)
}

/// Walks past a field record.
pub fn skip_field_parser<'a>(i: ParseData<'a>) -> (r: Result<ParseData<'a>, ParseError>)
    ensures
        skips(i, r, spec_field(i.bytes(), i.start())),
{
    skip_member_parser(i)
}

pub fn field_parser<'a>(i: ParseData<'a>) -> (r: Result<(ParseData<'a>, FieldInfo), ParseError>)
    ensures
        decodes_view(i, r, spec_field(i.bytes(), i.start())),
{
    let (j, (h, attributes)) = member_parser(i)?;
    Ok((
        j,
        FieldInfo {
            access_flags: FieldAccessFlags::from_bits_truncate(h.0),
            name_index: ConstantPoolIndexRaw(h.1),
            descriptor_index: ConstantPoolIndexRaw(h.2),
            attributes_count: h.3,
            attributes,
        },
    ))
}

/// A field record, walking past its attributes.
pub fn field_opt_parser<'a>(i: ParseData<'a>) -> (r: Result<(ParseData<'a>, FieldInfoOpt), ParseError>)
    ensures
        decodes(i, r, spec_field_opt(i.bytes(), i.start())),
{
    let (j, h) = member_header_parser(i)?;
    let k = skip_count::<AttributeInfo, _>(skip_attribute_parser, Ghost(attribute_grammar()), j, h.3 as usize)?;
    proof {
        let n = repeat(attribute_grammar(), j.bytes(), j.start(), h.3 as nat)->Ok_0.1;
        lemma_advance_twice(i, j, k, 8, n);
    }
    Ok((
        k,
        FieldInfoOpt {
            access_flags: FieldAccessFlags::from_bits_truncate(h.0),
            name_index: ConstantPoolIndexRaw(h.1),
            descriptor_index: ConstantPoolIndexRaw(h.2),
            attributes_count: h.3,
        },
    ))
}


/// The name of the attribute that holds a field's constant value.
pub open spec fn constant_value_name() -> Seq<char> {
    "ConstantValue"@
}

/// A field record read as by `spec_field_opt`, with the index held by its
/// first `ConstantValue` attribute, if it has one. The search reads the
/// attribute names through the constant pool `entries` and the file `data`.
pub open spec fn spec_field_value(
    s: Seq<u8>,
    pos: int,
    data: Seq<u8>,
    entries: Seq<ConstantInfo>,
) -> Decoded<(FieldInfoOpt, Option<ConstantPoolIndexRaw>)> {
    match spec_field_opt(s, pos) {
        Err(e) => Err(e),
        Ok((f, k)) => match spec_search(s.skip(8), pos + 8, data, entries, constant_value_name(), f.attributes_count as nat) {
            Err(e) => Err(e),
            Ok((None, _)) => Ok(((f, None), k)),
            Ok((Some(r), _)) => if r.start <= r.end <= data.len() && r.end - r.start >= 2 {
                Ok(((f, Some(ConstantPoolIndexRaw(spec_u16(data.subrange(r.start as int, r.end as int))))), k))
            } else {
                Err(ParseError::Incomplete)
            },
        },
    }
}

/// A field record, walking past its attributes, with the index that its
/// `ConstantValue` attribute holds, found without decoding its other
/// attributes.
pub fn field_opt_value_parser<'a>(
    i: ParseData<'a>,
    class_file_data: &'a [u8],
    constant_pool: &ConstantPool,
) -> (r: Result<(ParseData<'a>, (FieldInfoOpt, Option<ConstantPoolIndexRaw>)), ParseError>)
    ensures
        decodes(i, r, spec_field_value(i.bytes(), i.start(), class_file_data@, constant_pool.entries())),
{
    let (next, field) = field_opt_parser(i)?;
    let attributes = i.slice(8);
    let (_, found) = attributes_search_parser(attributes, class_file_data, constant_pool, "ConstantValue", field.attributes_count)?;
    let value = match found {
        None => None,
        Some(range) => {
            if range.start <= range.end && range.end <= class_file_data.len() {
                let (_, attr) = constant_value_attribute_parser(ParseData::from_range(class_file_data, range))?;
                Some(ConstantPoolIndexRaw(attr.constant_value_index))
            } else {
                return Err(ParseError::Incomplete);
            }
        },
    };
    Ok((next, (field, value)))
}

} // verus!
