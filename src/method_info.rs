//! Method records, and the search of an attribute list by name.
use crate::attribute_info::parser::{attribute_parser, skip_attribute_parser};
use crate::attribute_info::types::{attribute_grammar, spec_attribute, AttributeInfo};
use crate::constant_info::{text_of, ConstantInfo};
use crate::constant_pool::{spec_get, ConstantPool, ConstantPoolIndexRaw};
use crate::field_info::{member_header_parser, member_parser, skip_member_parser, spec_member, spec_member_header, MemberHeader};
use crate::parser::{decodes, decodes_view, fixed, lemma_advance_twice, repeat, ByteRange, Decoded, Grammar, ParseData, ParseError};
use crate::util::{skip_count, skips};
use vstd::prelude::*;

verus! {

/// The bits that name a method access flag.
pub const METHOD_FLAGS_ALL: u16 = 0x1DFF;

/// The access flags of a method.
#[derive(Debug, Clone, Copy, PartialEq, Eq, Hash, Structural)]
pub struct MethodAccessFlags {
    pub bits: u16,
}

impl MethodAccessFlags {
    pub const PUBLIC: u16 = 0x0001;
    pub const PRIVATE: u16 = 0x0002;
    pub const PROTECTED: u16 = 0x0004;
    pub const STATIC: u16 = 0x0008;
    pub const FINAL: u16 = 0x0010;
    pub const SYNCHRONIZED: u16 = 0x0020;
    pub const BRIDGE: u16 = 0x0040;
    pub const VARARGS: u16 = 0x0080;
    pub const NATIVE: u16 = 0x0100;
    pub const ABSTRACT: u16 = 0x0400;
    pub const STRICT: u16 = 0x0800;
    pub const SYNTHETIC: u16 = 0x1000;

    /// The flags among `bits`; other bits are dropped.
    pub fn from_bits_truncate(bits: u16) -> (r: MethodAccessFlags)
        ensures
            r.bits == bits & METHOD_FLAGS_ALL,
    {
        MethodAccessFlags { bits: bits & METHOD_FLAGS_ALL }
    }

    pub fn bits(&self) -> (r: u16)
        ensures
            r == self.bits,
    {
        self.bits
    }

    /// Whether every flag of `flags` is set.
    pub fn contains(&self, flags: u16) -> (r: bool)
        ensures
            r == (self.bits & flags == flags),
    {
        self.bits & flags == flags
    }
}

/// A method with its attribute records.
#[derive(Debug, Clone, PartialEq, Eq)]
pub struct MethodInfo {
    pub access_flags: MethodAccessFlags,
    pub name_index: ConstantPoolIndexRaw,
    pub descriptor_index: ConstantPoolIndexRaw,
    pub attributes_count: u16,
    pub attributes: Vec<AttributeInfo>,
}

/// What a `MethodInfo` denotes.
pub struct MethodInfoModel {
    pub access_flags: MethodAccessFlags,
    pub name_index: ConstantPoolIndexRaw,
    pub descriptor_index: ConstantPoolIndexRaw,
    pub attributes_count: u16,
    pub attributes: Seq<AttributeInfo>,
}

impl View for MethodInfo {
    type V = MethodInfoModel;

    open spec fn view(&self) -> MethodInfoModel {
        MethodInfoModel {
            access_flags: self.access_flags,
            name_index: self.name_index,
            descriptor_index: self.descriptor_index,
            attributes_count: self.attributes_count,
            attributes: self.attributes@,
        }
    }
}

/// A method without its attributes: only how many there are.
#[derive(Debug, Clone, Copy, PartialEq, Eq, Structural)]
pub struct MethodInfoOpt {
    pub access_flags: MethodAccessFlags,
    pub name_index: ConstantPoolIndexRaw,
    pub descriptor_index: ConstantPoolIndexRaw,
    pub attributes_count: u16,
}

impl MethodInfoOpt {
    /// The fixed part of a method record.
    pub open spec fn of_model(m: MethodInfoModel) -> MethodInfoOpt {
        MethodInfoOpt {
            access_flags: m.access_flags,
            name_index: m.name_index,
            descriptor_index: m.descriptor_index,
            attributes_count: m.attributes_count,
        }
    }

    pub fn from_method_info(m: &MethodInfo) -> (r: MethodInfoOpt)
        ensures
            r == MethodInfoOpt::of_model(m@),
    {
        MethodInfoOpt {
            access_flags: m.access_flags,
            name_index: m.name_index,
            descriptor_index: m.descriptor_index,
            attributes_count: m.attributes_count,
        }
    }
}

/// A copy of a method record.
pub(crate) fn copy_method_info(m: &MethodInfo) -> (r: MethodInfo)
    ensures
        r@ == m@,
{
    let attributes = m.attributes.clone();
    assert(attributes@ =~= m.attributes@);
    MethodInfo {
        access_flags: m.access_flags,
        name_index: m.name_index,
        descriptor_index: m.descriptor_index,
        attributes_count: m.attributes_count,
        attributes,
    }
}

pub open spec fn method_of(h: MemberHeader, attributes: Seq<AttributeInfo>) -> MethodInfoModel {
    MethodInfoModel {
        access_flags: MethodAccessFlags { bits: h.0 & METHOD_FLAGS_ALL },
        name_index: ConstantPoolIndexRaw(h.1),
        descriptor_index: ConstantPoolIndexRaw(h.2),
        attributes_count: h.3,
        attributes,
    }
}

pub open spec fn spec_method(s: Seq<u8>, pos: int) -> Decoded<MethodInfoModel> {
    match spec_member(s, pos) {
        Ok(((h, attributes), k)) => Ok((method_of(h, attributes), k)),
        Err(e) => Err(e),
    }
}

pub open spec fn method_grammar() -> Grammar<MethodInfoModel> {
    |s: Seq<u8>, pos: int| spec_method(s, pos)
}

/// The fixed part of a method record, the attributes left unread.
pub open spec fn spec_method_opt(s: Seq<u8>) -> Decoded<MethodInfoOpt> {
    fixed(s, 8, MethodInfoOpt::of_model(method_of(spec_member_header(s), Seq::empty())))
}

/// Walks past a method record.
pub fn skip_method_parser<'a>(i: ParseData<'a>) -> (r: Result<ParseData<'a>, ParseError>)
    ensures
        skips(i, r, spec_method(i.bytes(), i.start())),
{
    skip_member_parser(i)
}

/// Walks past `attributes_count` attributes.
pub fn skip_method_attributes_parser<'a>(i: ParseData<'a>, attributes_count: u16) -> (r: Result<ParseData<'a>, ParseError>)
    ensures
        skips(i, r, repeat(attribute_grammar(), i.bytes(), i.start(), attributes_count as nat)),
{
    skip_count::<AttributeInfo, _>(skip_attribute_parser, Ghost(attribute_grammar()), i, attributes_count as usize)
}

pub fn method_parser<'a>(i: ParseData<'a>) -> (r: Result<(ParseData<'a>, MethodInfo), ParseError>)
    ensures
        decodes_view(i, r, spec_method(i.bytes(), i.start())),
{
    let (j, (h, attributes)) = member_parser(i)?;
    Ok((
        j,
        MethodInfo {
            access_flags: MethodAccessFlags::from_bits_truncate(h.0),
            name_index: ConstantPoolIndexRaw(h.1),
            descriptor_index: ConstantPoolIndexRaw(h.2),
            attributes_count: h.3,
            attributes,
        },
    ))
}

/// The fixed part of a method record; the cursor is left at its attributes.
pub fn method_opt_parser<'a>(i: ParseData<'a>) -> (r: Result<(ParseData<'a>, MethodInfoOpt), ParseError>)
    ensures
        decodes(i, r, spec_method_opt(i.bytes())),
{
    let (j, h) = member_header_parser(i)?;
    Ok((
        j,
        MethodInfoOpt {
            access_flags: MethodAccessFlags::from_bits_truncate(h.0),
            name_index: ConstantPoolIndexRaw(h.1),
            descriptor_index: ConstantPoolIndexRaw(h.2),
            attributes_count: h.3,
        },
    ))
}

/// Whether the index addresses a `Utf8` constant whose bytes lie within
/// `data` and whose text is `name`.
pub open spec fn names_attribute(
    data: Seq<u8>,
    entries: Seq<ConstantInfo>,
    idx: ConstantPoolIndexRaw,
    name: Seq<char>,
) -> bool {
    match spec_get(entries, idx) {
        Some(ConstantInfo::Utf8(u)) => u.data.start <= u.data.end <= data.len() && text_of(u.spec_bytes(data)) == name,
        _ => false,
    }
}

/// The search of `n` attributes for the first one named `name`: where its
/// bytes lie, or `None`; and the bytes read up to and including it.
pub open spec fn spec_search(
    s: Seq<u8>,
    pos: int,
    data: Seq<u8>,
    entries: Seq<ConstantInfo>,
    name: Seq<char>,
    n: nat,
) -> Decoded<Option<ByteRange>>
    decreases n,
{
    if n == 0 {
        Ok((None, 0))
    } else {
        match spec_attribute(s, pos) {
            Err(e) => Err(e),
            Ok((a, k)) => if names_attribute(data, entries, a.attribute_name_index, name) {
                Ok((Some(a.info), k))
            } else {
                match spec_search(s.skip(k), pos + k, data, entries, name, (n - 1) as nat) {
                    Ok((r, m)) => Ok((r, k + m)),
                    Err(e) => Err(e),
                }
            },
        }
    }
}

/// Whether some attribute record of `attrs` is named `name`.
pub open spec fn some_named(data: Seq<u8>, entries: Seq<ConstantInfo>, attrs: Seq<AttributeInfo>, name: Seq<char>) -> bool {
    exists|j: int| 0 <= j < attrs.len() && names_attribute(data, entries, (#[trigger] attrs[j]).attribute_name_index, name)
}

/// `j` is the first attribute record of `attrs` named `name`.
pub open spec fn first_named(data: Seq<u8>, entries: Seq<ConstantInfo>, attrs: Seq<AttributeInfo>, name: Seq<char>, j: int) -> bool {
    &&& 0 <= j < attrs.len()
    &&& names_attribute(data, entries, attrs[j].attribute_name_index, name)
    &&& forall|i: int| 0 <= i < j ==> !names_attribute(data, entries, (#[trigger] attrs[i]).attribute_name_index, name)
}

/// Over attributes that decode, the search by name succeeds, and finds one
/// exactly when some record is named `name`: the first such, whose bytes'
/// position it gives.
pub proof fn lemma_search_finds_first(
    s: Seq<u8>,
    pos: int,
    data: Seq<u8>,
    entries: Seq<ConstantInfo>,
    name: Seq<char>,
    n: nat,
)
    requires
        repeat(attribute_grammar(), s, pos, n) is Ok,
    ensures
        ({
            let attrs = repeat(attribute_grammar(), s, pos, n)->Ok_0.0;
            let r = spec_search(s, pos, data, entries, name, n);
            &&& r is Ok
            &&& (r->Ok_0.0 is Some <==> some_named(data, entries, attrs, name))
            &&& (r->Ok_0.0 is Some ==> exists|j: int| first_named(data, entries, attrs, name, j) && r->Ok_0.0->Some_0 == attrs[j].info)
        }),
    decreases n,
{
    if n > 0 {
        let (a, k) = spec_attribute(s, pos)->Ok_0;
        let attrs = repeat(attribute_grammar(), s, pos, n)->Ok_0.0;
        let rest = repeat(attribute_grammar(), s.skip(k), pos + k, (n - 1) as nat)->Ok_0.0;
        assert(attrs == seq![a] + rest);
        assert(attrs[0] == a);
        if names_attribute(data, entries, a.attribute_name_index, name) {
            assert(first_named(data, entries, attrs, name, 0));
        } else {
            lemma_search_finds_first(s.skip(k), pos + k, data, entries, name, (n - 1) as nat);
            let r = spec_search(s.skip(k), pos + k, data, entries, name, (n - 1) as nat);
            if some_named(data, entries, attrs, name) {
                let j = choose|j: int| 0 <= j < attrs.len() && names_attribute(data, entries, (#[trigger] attrs[j]).attribute_name_index, name);
                assert(j != 0);
                assert(attrs[j] == rest[j - 1]);
            }
            if r->Ok_0.0 is Some {
                let j = choose|j: int| first_named(data, entries, rest, name, j) && r->Ok_0.0->Some_0 == rest[j].info;
                assert(attrs[j + 1] == rest[j]);
                assert forall|i: int| 0 <= i < j + 1 implies !names_attribute(data, entries, (#[trigger] attrs[i]).attribute_name_index, name) by {
                    if i > 0 {
                        assert(attrs[i] == rest[i - 1]);
                    }
                }
                assert(first_named(data, entries, attrs, name, j + 1));
            }
        }
    }
}

fn attribute_named(data: &[u8], pool: &ConstantPool, idx: ConstantPoolIndexRaw, name: &str) -> (r: bool)
    ensures
        r == names_attribute(data@, pool.entries(), idx, name@),
{
    match pool.get_utf8(idx) {
        Some(u) => {
            if u.data.start <= u.data.end && u.data.end <= data.len() {
                let text = u.as_text(data);
                let wanted = name.to_owned();
                text == wanted
            } else {
                false
            }
        },
        None => false,
    }
}

/// Searches `attributes_count` attributes for the first whose name is
/// `name`, and gives where its bytes lie; later ones of that name are not
/// seen.
pub fn attributes_search_parser<'a>(
    input: ParseData<'a>,
    class_file_data: &[u8],
    constant_pool: &ConstantPool,
    name: &str,
    attributes_count: u16,
) -> (r: Result<(ParseData<'a>, Option<ByteRange>), ParseError>)
    ensures
        decodes(
            input,
            r,
            spec_search(input.bytes(), input.start(), class_file_data@, constant_pool.entries(), name@, attributes_count as nat),
        ),
{
    let ghost whole = spec_search(input.bytes(), input.start(), class_file_data@, constant_pool.entries(), name@, attributes_count as nat);
    let mut cur = input;
    let mut k: u16 = 0;
    let ghost consumed: int = 0;
    assert(input.bytes().skip(0) =~= input.bytes());
    while k < attributes_count
        invariant
            k <= attributes_count,
            input.advanced(cur, consumed),
            whole == spec_search(input.bytes(), input.start(), class_file_data@, constant_pool.entries(), name@, attributes_count as nat),
            whole == match spec_search(cur.bytes(), cur.start(), class_file_data@, constant_pool.entries(), name@, (attributes_count - k) as nat) {
                Ok((x, m)) => Ok((x, consumed + m)),
                Err(e) => Decoded::<Option<ByteRange>>::Err(e),
            },
        decreases attributes_count - k,
    {
        let ghost before = cur;
        let (next, a) = attribute_parser(cur)?;
        let ghost m = spec_attribute(before.bytes(), before.start())->Ok_0.1;
        proof {
            lemma_advance_twice(input, before, next, consumed, m);
        }
        if attribute_named(class_file_data, constant_pool, a.attribute_name_index, name) {
            return Ok((next, Some(a.info)));
        }
        cur = next;
        k += 1;
        proof {
            consumed = consumed + m;
        }
    }
    Ok((cur, None))
}

} // verus!
