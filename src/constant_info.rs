//! The entries of the constant pool, and their decoder.
use crate::constant_pool::ConstantPoolIndexRaw;
use crate::parser::{
    after, be_u16, be_u32, be_u64, be_u8, decodes, fixed, lemma_advance_twice, spec_u16, spec_u32,
    spec_u64, take, ByteRange, Decoded, ParseData, ParseError,
};
use vstd::prelude::*;
use vstd::slice::slice_subrange;

verus! {

/// One slot of the constant pool.
#[derive(Debug, Clone, Copy, PartialEq, Eq, Structural)]
pub enum ConstantInfo {
    Utf8(Utf8Constant),
    Integer(IntegerConstant),
    Float(FloatConstant),
    Long(LongConstant),
    Double(DoubleConstant),
    Class(ClassConstant),
    String(StringConstant),
    FieldRef(FieldRefConstant),
    MethodRef(MethodRefConstant),
    InterfaceMethodRef(InterfaceMethodRefConstant),
    NameAndType(NameAndTypeConstant),
    MethodHandle(MethodHandleConstant),
    MethodType(MethodTypeConstant),
    InvokeDynamic(InvokeDynamicConstant),
    /// The slot right after a `Long` or a `Double`, which stands for their
    /// second half: it has an index but nothing refers to it.
    Unusable,
}

/// The kinds of constant that an index may be expected to address.
#[derive(Debug, Clone, Copy, PartialEq, Eq, Structural)]
pub enum ConstantKind {
    Utf8,
    Integer,
    Float,
    Long,
    Double,
    Class,
    String,
    FieldRef,
    MethodRef,
    InterfaceMethodRef,
    NameAndType,
    MethodHandle,
    MethodType,
    InvokeDynamic,
}

/// The constant was not of the expected kind.
#[derive(Debug, Clone, Copy, PartialEq, Eq, Structural)]
pub struct IncorrectConstant;

impl ConstantInfo {
    /// The kind of this entry; an `Unusable` slot has none.
    pub open spec fn spec_kind(&self) -> Option<ConstantKind> {
        match self {
            ConstantInfo::Utf8(_) => Some(ConstantKind::Utf8),
            ConstantInfo::Integer(_) => Some(ConstantKind::Integer),
            ConstantInfo::Float(_) => Some(ConstantKind::Float),
            ConstantInfo::Long(_) => Some(ConstantKind::Long),
            ConstantInfo::Double(_) => Some(ConstantKind::Double),
            ConstantInfo::Class(_) => Some(ConstantKind::Class),
            ConstantInfo::String(_) => Some(ConstantKind::String),
            ConstantInfo::FieldRef(_) => Some(ConstantKind::FieldRef),
            ConstantInfo::MethodRef(_) => Some(ConstantKind::MethodRef),
            ConstantInfo::InterfaceMethodRef(_) => Some(ConstantKind::InterfaceMethodRef),
            ConstantInfo::NameAndType(_) => Some(ConstantKind::NameAndType),
            ConstantInfo::MethodHandle(_) => Some(ConstantKind::MethodHandle),
            ConstantInfo::MethodType(_) => Some(ConstantKind::MethodType),
            ConstantInfo::InvokeDynamic(_) => Some(ConstantKind::InvokeDynamic),
            ConstantInfo::Unusable => None,
        }
    }

    /// Whether this entry takes two slots of the pool.
    pub open spec fn is_wide(&self) -> bool {
        self is Long || self is Double
    }

    pub fn kind(&self) -> (r: Option<ConstantKind>)
        ensures
            r == self.spec_kind(),
    {
        match self {
            ConstantInfo::Utf8(_) => Some(ConstantKind::Utf8),
            ConstantInfo::Integer(_) => Some(ConstantKind::Integer),
            ConstantInfo::Float(_) => Some(ConstantKind::Float),
            ConstantInfo::Long(_) => Some(ConstantKind::Long),
            ConstantInfo::Double(_) => Some(ConstantKind::Double),
            ConstantInfo::Class(_) => Some(ConstantKind::Class),
            ConstantInfo::String(_) => Some(ConstantKind::String),
            ConstantInfo::FieldRef(_) => Some(ConstantKind::FieldRef),
            ConstantInfo::MethodRef(_) => Some(ConstantKind::MethodRef),
            ConstantInfo::InterfaceMethodRef(_) => Some(ConstantKind::InterfaceMethodRef),
            ConstantInfo::NameAndType(_) => Some(ConstantKind::NameAndType),
            ConstantInfo::MethodHandle(_) => Some(ConstantKind::MethodHandle),
            ConstantInfo::MethodType(_) => Some(ConstantKind::MethodType),
            ConstantInfo::InvokeDynamic(_) => Some(ConstantKind::InvokeDynamic),
            ConstantInfo::Unusable => None,
        }
    }

    /// This entry as a `Utf8` constant, if it is one.
    pub fn as_utf8(&self) -> (r: Result<&Utf8Constant, IncorrectConstant>)
        ensures
            match self {
                ConstantInfo::Utf8(u) => r == Ok::<&Utf8Constant, IncorrectConstant>(u),
                _ => r is Err,
            },
    {
        match self {
            ConstantInfo::Utf8(u) => Ok(u),
            _ => Err(IncorrectConstant),
        }
    }

    pub fn is_kind(&self, kind: ConstantKind) -> (r: bool)
        ensures
            r == (self.spec_kind() == Some(kind)),
    {
        match self.kind() {
            Some(k) => k == kind,
            None => false,
        }
    }
}

/// The text that the Java variant of CESU-8 gives for some bytes, where they
/// are in that encoding.
pub uninterp spec fn java_cesu8_of(b: Seq<u8>) -> Option<Seq<char>>;

/// The text that a lossy UTF-8 decode gives for some bytes.
pub uninterp spec fn utf8_lossy_of(b: Seq<u8>) -> Seq<char>;

/// The text of a `Utf8` constant's bytes: their Java CESU-8 decoding, or the
/// lossy UTF-8 decoding where they are not in that encoding.
pub open spec fn text_of(b: Seq<u8>) -> Seq<char> {
    match java_cesu8_of(b) {
        Some(t) => t,
        None => utf8_lossy_of(b),
    }
}

/// Relies on `cesu8::from_java_cesu8`: the decoded text, or an error where
/// the bytes are not Java CESU-8; the result depends on the bytes alone.
#[verifier::external_body]
fn decode_java_cesu8(bytes: &[u8]) -> (r: Option<String>)
    ensures
        match r {
            Some(s) => java_cesu8_of(bytes@) == Some(s@),
            None => java_cesu8_of(bytes@) is None,
        },
{
    match cesu8::from_java_cesu8(bytes) {
        Ok(s) => Some(s.into_owned()),
        Err(_) => None,
    }
}

/// Relies on `String::from_utf8_lossy`: the bytes as UTF-8, with each
/// malformed sequence replaced; the result depends on the bytes alone.
#[verifier::external_body]
fn decode_utf8_lossy(bytes: &[u8]) -> (r: String)
    ensures
        r@ == utf8_lossy_of(bytes@),
{
    String::from_utf8_lossy(bytes).into_owned()
}

/// The text of a `Utf8` constant's bytes; never fails.
pub fn to_text(bytes: &[u8]) -> (r: String)
    ensures
        r@ == text_of(bytes@),
{
    match decode_java_cesu8(bytes) {
        Some(s) => s,
        None => decode_utf8_lossy(bytes),
    }
}

/// A `Utf8` constant: where its bytes lie in the file. They are decoded on
/// request.
#[derive(Debug, Clone, Copy, PartialEq, Eq, Structural)]
pub struct Utf8Constant {
    /// The positions of its bytes in the file.
    pub data: ByteRange,
}

impl Utf8Constant {
    pub(crate) fn new(data: ByteRange) -> (r: Utf8Constant)
        ensures
            r.data == data,
    {
        Utf8Constant { data }
    }

    /// The number of bytes, not of characters.
    pub fn len(&self) -> (r: usize)
        ensures
            r == if self.data.start <= self.data.end {
                self.data.end - self.data.start
            } else {
                0
            },
    {
        if self.data.start <= self.data.end {
            self.data.end - self.data.start
        } else {
            0
        }
    }

    pub fn is_empty(&self) -> (r: bool)
        ensures
            r == (self.data.end <= self.data.start),
    {
        self.data.end <= self.data.start
    }

    /// The bytes of this constant within the file's bytes.
    pub open spec fn spec_bytes(&self, class_file_data: Seq<u8>) -> Seq<u8> {
        class_file_data.subrange(self.data.start as int, self.data.end as int)
    }

    /// The text of this constant, given the bytes of the file it came from.
    pub fn as_text(&self, class_file_data: &[u8]) -> (r: String)
        requires
            self.data.start <= self.data.end <= class_file_data@.len(),
        ensures
            r@ == text_of(self.spec_bytes(class_file_data@)),
    {
        to_text(slice_subrange(class_file_data, self.data.start, self.data.end))
    }
}

#[derive(Debug, Clone, Copy, PartialEq, Eq, Structural)]
pub struct IntegerConstant {
    pub value: i32,
}

/// A `float` constant, as the bits of its IEEE 754 single-precision value.
#[derive(Debug, Clone, Copy, PartialEq, Eq, Structural)]
pub struct FloatConstant {
    pub bits: u32,
}

#[derive(Debug, Clone, Copy, PartialEq, Eq, Structural)]
pub struct LongConstant {
    pub value: i64,
}

/// A `double` constant, as the bits of its IEEE 754 double-precision value.
#[derive(Debug, Clone, Copy, PartialEq, Eq, Structural)]
pub struct DoubleConstant {
    pub bits: u64,
}

#[derive(Debug, Clone, Copy, PartialEq, Eq, Structural)]
pub struct ClassConstant {
    pub name_index: ConstantPoolIndexRaw,
}

#[derive(Debug, Clone, Copy, PartialEq, Eq, Structural)]
pub struct StringConstant {
    pub string_index: ConstantPoolIndexRaw,
}

#[derive(Debug, Clone, Copy, PartialEq, Eq, Structural)]
pub struct FieldRefConstant {
    /// Must address a class or an interface.
    pub class_index: ConstantPoolIndexRaw,
    pub name_and_type_index: ConstantPoolIndexRaw,
}

#[derive(Debug, Clone, Copy, PartialEq, Eq, Structural)]
pub struct MethodRefConstant {
    /// Must address a class.
    pub class_index: ConstantPoolIndexRaw,
    pub name_and_type_index: ConstantPoolIndexRaw,
}

#[derive(Debug, Clone, Copy, PartialEq, Eq, Structural)]
pub struct InterfaceMethodRefConstant {
    /// Must address an interface.
    pub class_index: ConstantPoolIndexRaw,
    pub name_and_type_index: ConstantPoolIndexRaw,
}

#[derive(Debug, Clone, Copy, PartialEq, Eq, Structural)]
pub struct NameAndTypeConstant {
    pub name_index: ConstantPoolIndexRaw,
    pub descriptor_index: ConstantPoolIndexRaw,
}

#[derive(Debug, Clone, Copy, PartialEq, Eq, Structural)]
pub struct MethodHandleConstant {
    pub reference_kind: u8,
    /// What kind of constant this addresses depends on `reference_kind`.
    pub reference_index: ConstantPoolIndexRaw,
}

#[derive(Debug, Clone, Copy, PartialEq, Eq, Structural)]
pub struct MethodTypeConstant {
    pub descriptor_index: ConstantPoolIndexRaw,
}

#[derive(Debug, Clone, Copy, PartialEq, Eq, Structural)]
pub struct InvokeDynamicConstant {
    pub bootstrap_method_attr_index: u16,
    pub name_and_type_index: ConstantPoolIndexRaw,
}

/// The two indices that follow the tag of several kinds.
pub open spec fn index_pair(b: Seq<u8>) -> (ConstantPoolIndexRaw, ConstantPoolIndexRaw) {
    (ConstantPoolIndexRaw(spec_u16(b)), ConstantPoolIndexRaw(spec_u16(b.skip(2))))
}

/// The body of a constant of the given tag: the bytes after the tag, which
/// start at `pos`.
pub open spec fn spec_constant_body(b: Seq<u8>, pos: int, tag: u8) -> Decoded<ConstantInfo> {
    let (x, y) = index_pair(b);
    if tag == 1 {
        if b.len() < 2 {
            Err(ParseError::Incomplete)
        } else if b.len() < 2 + spec_u16(b) {
            Err(ParseError::Incomplete)
        } else {
            Ok((
                ConstantInfo::Utf8(
                    Utf8Constant {
                        data: ByteRange { start: (pos + 2) as usize, end: (pos + 2 + spec_u16(b)) as usize },
                    },
                ),
                2 + spec_u16(b),
            ))
        }
    } else if tag == 3 {
        fixed(b, 4, ConstantInfo::Integer(IntegerConstant { value: spec_u32(b) as i32 }))
    } else if tag == 4 {
        fixed(b, 4, ConstantInfo::Float(FloatConstant { bits: spec_u32(b) }))
    } else if tag == 5 {
        fixed(b, 8, ConstantInfo::Long(LongConstant { value: spec_u64(b) as i64 }))
    } else if tag == 6 {
        fixed(b, 8, ConstantInfo::Double(DoubleConstant { bits: spec_u64(b) }))
    } else if tag == 7 {
        fixed(b, 2, ConstantInfo::Class(ClassConstant { name_index: x }))
    } else if tag == 8 {
        fixed(b, 2, ConstantInfo::String(StringConstant { string_index: x }))
    } else if tag == 9 {
        fixed(b, 4, ConstantInfo::FieldRef(FieldRefConstant { class_index: x, name_and_type_index: y }))
    } else if tag == 10 {
        fixed(b, 4, ConstantInfo::MethodRef(MethodRefConstant { class_index: x, name_and_type_index: y }))
    } else if tag == 11 {
        fixed(
            b,
            4,
            ConstantInfo::InterfaceMethodRef(
                InterfaceMethodRefConstant { class_index: x, name_and_type_index: y },
            ),
        )
    } else if tag == 12 {
        fixed(b, 4, ConstantInfo::NameAndType(NameAndTypeConstant { name_index: x, descriptor_index: y }))
    } else if tag == 15 {
        fixed(
            b,
            3,
            ConstantInfo::MethodHandle(
                MethodHandleConstant {
                    reference_kind: b[0],
                    reference_index: ConstantPoolIndexRaw(spec_u16(b.skip(1))),
                },
            ),
        )
    } else if tag == 16 {
        fixed(b, 2, ConstantInfo::MethodType(MethodTypeConstant { descriptor_index: x }))
    } else if tag == 18 {
        fixed(
            b,
            4,
            ConstantInfo::InvokeDynamic(
                InvokeDynamicConstant { bootstrap_method_attr_index: spec_u16(b), name_and_type_index: y },
            ),
        )
    } else {
        Err(ParseError::UnrecognizedConstantTag(tag))
    }
}

/// One constant: a tag byte and the body that the tag calls for.
pub open spec fn spec_constant(s: Seq<u8>, pos: int) -> Decoded<ConstantInfo> {
    if s.len() < 1 {
        Err(ParseError::Incomplete)
    } else {
        match spec_constant_body(s.skip(1), pos + 1, s[0]) {
            Ok((c, k)) => Ok((c, k + 1)),
            Err(e) => Err(e),
        }
    }
}

/// Constants until `slots` slots of the pool are filled; a `Long` or a
/// `Double` fills two, the second with `Unusable`.
pub open spec fn spec_constant_pool(s: Seq<u8>, pos: int, slots: nat) -> Decoded<Seq<ConstantInfo>>
    decreases slots,
{
    if slots == 0 {
        Ok((Seq::empty(), 0))
    } else {
        match spec_constant(s, pos) {
            Err(e) => Err(e),
            Ok((c, k)) => {
                let (filled, rest) = if c.is_wide() {
                    (seq![c, ConstantInfo::Unusable], if slots >= 2 { (slots - 2) as nat } else { 0 })
                } else {
                    (seq![c], (slots - 1) as nat)
                };
                after(filled, k, spec_constant_pool(s.skip(k), pos + k, rest))
            },
        }
    }
}

/// The number of entries that are constants rather than `Unusable` slots.
pub open spec fn logical_count(cs: Seq<ConstantInfo>) -> nat
    decreases cs.len(),
{
    if cs.len() == 0 {
        0
    } else {
        (if cs[0] is Unusable { 0nat } else { 1nat }) + logical_count(cs.skip(1))
    }
}

/// The number of `Long` and `Double` entries.
pub open spec fn wide_count(cs: Seq<ConstantInfo>) -> nat
    decreases cs.len(),
{
    if cs.len() == 0 {
        0
    } else {
        (if cs[0].is_wide() { 1nat } else { 0nat }) + wide_count(cs.skip(1))
    }
}

/// A decoded pool holds one slot per constant and one more per `Long` or
/// `Double`.
pub proof fn lemma_pool_counts(s: Seq<u8>, pos: int, slots: nat)
    requires
        spec_constant_pool(s, pos, slots) is Ok,
    ensures
        ({
            let cs = spec_constant_pool(s, pos, slots)->Ok_0.0;
            cs.len() == logical_count(cs) + wide_count(cs)
        }),
    decreases slots,
{
    if slots > 0 {
        let (c, k) = spec_constant(s, pos)->Ok_0;
        assert(!(c is Unusable));
        let rest_slots: nat = if c.is_wide() {
            if slots >= 2 { (slots - 2) as nat } else { 0 }
        } else {
            (slots - 1) as nat
        };
        lemma_pool_counts(s.skip(k), pos + k, rest_slots);
        let rest = spec_constant_pool(s.skip(k), pos + k, rest_slots)->Ok_0.0;
        let cs = spec_constant_pool(s, pos, slots)->Ok_0.0;
        if c.is_wide() {
            assert(cs == seq![c, ConstantInfo::Unusable] + rest);
            assert(cs.skip(1) =~= seq![ConstantInfo::Unusable] + rest);
            assert(cs.skip(1).skip(1) =~= rest);
            assert(logical_count(cs.skip(1)) == logical_count(rest));
            assert(wide_count(cs.skip(1)) == wide_count(rest));
        } else {
            assert(cs == seq![c] + rest);
            assert(cs.skip(1) =~= rest);
        }
        assert(logical_count(cs) == 1 + logical_count(cs.skip(1)));
        assert(wide_count(cs) == (if c.is_wide() { 1nat } else { 0nat }) + wide_count(cs.skip(1)));
    }
}

/// The slots of a decoded pool: it fills the slots asked for, or one more
/// where its last entry is a `Long` or a `Double`; each of those is followed by
/// an `Unusable` slot, and each `Unusable` slot follows one of them.
pub proof fn lemma_pool_slots(s: Seq<u8>, pos: int, slots: nat)
    requires
        spec_constant_pool(s, pos, slots) is Ok,
    ensures
        ({
            let cs = spec_constant_pool(s, pos, slots)->Ok_0.0;
            &&& slots <= cs.len() <= slots + 1
            &&& cs.len() == slots + 1 ==> slots >= 1 && cs[slots - 1].is_wide()
            &&& forall|j: int|
                0 <= j < cs.len() && (#[trigger] cs[j]).is_wide() ==> j + 1 < cs.len() && cs[j + 1] is Unusable
            &&& forall|j: int|
                0 <= j < cs.len() && (#[trigger] cs[j]) is Unusable ==> j >= 1 && cs[j - 1].is_wide()
        }),
    decreases slots,
{
    if slots > 0 {
        let (c, k) = spec_constant(s, pos)->Ok_0;
        assert(!(c is Unusable));
        let rest_slots: nat = if c.is_wide() {
            if slots >= 2 { (slots - 2) as nat } else { 0 }
        } else {
            (slots - 1) as nat
        };
        let filled = if c.is_wide() { seq![c, ConstantInfo::Unusable] } else { seq![c] };
        lemma_pool_slots(s.skip(k), pos + k, rest_slots);
        let rest = spec_constant_pool(s.skip(k), pos + k, rest_slots)->Ok_0.0;
        let cs = spec_constant_pool(s, pos, slots)->Ok_0.0;
        assert(cs == filled + rest);
        assert forall|j: int| 0 <= j < cs.len() && (#[trigger] cs[j]).is_wide() implies j + 1 < cs.len() && cs[j + 1] is Unusable by {
            if j >= filled.len() {
                assert(cs[j] == rest[j - filled.len()]);
                assert(cs[j + 1] == rest[j + 1 - filled.len()]);
            }
        }
        assert forall|j: int| 0 <= j < cs.len() && (#[trigger] cs[j]) is Unusable implies j >= 1 && cs[j - 1].is_wide() by {
            if j >= filled.len() {
                assert(cs[j] == rest[j - filled.len()]);
                if j - filled.len() >= 1 {
                    assert(cs[j - 1] == rest[j - 1 - filled.len()]);
                } else {
                    assert(rest[0] is Unusable);
                }
            }
        }
        if cs.len() == slots + 1 && !c.is_wide() {
            assert(cs[slots - 1] == rest[slots - 2]);
        }
    }
}

/// Two indices, as in several kinds of constant.
fn index_pair_parser<'a>(i: ParseData<'a>) -> (r: Result<(ParseData<'a>, (ConstantPoolIndexRaw, ConstantPoolIndexRaw)), ParseError>)
    ensures
        decodes(i, r, fixed(i.bytes(), 4, index_pair(i.bytes()))),
{
    let (j, x) = match be_u16(i) {
        Ok(v) => v,
        Err(e) => return Err(e),
    };
    let (k, y) = match be_u16(j) {
        Ok(v) => v,
        Err(e) => return Err(e),
    };
    proof {
        lemma_advance_twice(i, j, k, 2, 2);
    }
    Ok((k, (ConstantPoolIndexRaw(x), ConstantPoolIndexRaw(y))))
}

fn const_block_parser<'a>(input: ParseData<'a>, const_type: u8) -> (r: Result<(ParseData<'a>, ConstantInfo), ParseError>)
    ensures
        decodes(input, r, spec_constant_body(input.bytes(), input.start(), const_type)),
{
    let b = Ghost(input.bytes());
    if const_type == 1 {
        let (j, n) = match be_u16(input) {
            Ok(v) => v,
            Err(e) => return Err(e),
        };
        let start = j.pos();
        let (k, bytes) = match take(j, n as usize) {
            Ok(v) => v,
            Err(e) => return Err(e),
        };
        proof {
            lemma_advance_twice(input, j, k, 2, n as int);
        }
        let end = start + (n as usize);
        Ok((k, ConstantInfo::Utf8(Utf8Constant::new(ByteRange { start, end }))))
    } else if const_type == 3 || const_type == 4 {
        let (j, v) = match be_u32(input) {
            Ok(v) => v,
            Err(e) => return Err(e),
        };
        if const_type == 3 {
            Ok((j, ConstantInfo::Integer(IntegerConstant { value: v as i32 })))
        } else {
            Ok((j, ConstantInfo::Float(FloatConstant { bits: v })))
        }
    } else if const_type == 5 || const_type == 6 {
        let (j, v) = match be_u64(input) {
            Ok(v) => v,
            Err(e) => return Err(e),
        };
        if const_type == 5 {
            Ok((j, ConstantInfo::Long(LongConstant { value: v as i64 })))
        } else {
            Ok((j, ConstantInfo::Double(DoubleConstant { bits: v })))
        }
    } else if const_type == 7 || const_type == 8 || const_type == 16 {
        let (j, v) = match be_u16(input) {
            Ok(v) => v,
            Err(e) => return Err(e),
        };
        let x = ConstantPoolIndexRaw(v);
        if const_type == 7 {
            Ok((j, ConstantInfo::Class(ClassConstant { name_index: x })))
        } else if const_type == 8 {
            Ok((j, ConstantInfo::String(StringConstant { string_index: x })))
        } else {
            Ok((j, ConstantInfo::MethodType(MethodTypeConstant { descriptor_index: x })))
        }
    } else if const_type == 9 || const_type == 10 || const_type == 11 || const_type == 12 || const_type == 18 {
        let (j, (x, y)) = match index_pair_parser(input) {
            Ok(v) => v,
            Err(e) => return Err(e),
        };
        if const_type == 9 {
            Ok((j, ConstantInfo::FieldRef(FieldRefConstant { class_index: x, name_and_type_index: y })))
        } else if const_type == 10 {
            Ok((j, ConstantInfo::MethodRef(MethodRefConstant { class_index: x, name_and_type_index: y })))
        } else if const_type == 11 {
            Ok((
                j,
                ConstantInfo::InterfaceMethodRef(
                    InterfaceMethodRefConstant { class_index: x, name_and_type_index: y },
                ),
            ))
        } else if const_type == 12 {
            Ok((j, ConstantInfo::NameAndType(NameAndTypeConstant { name_index: x, descriptor_index: y })))
        } else {
            Ok((
                j,
                ConstantInfo::InvokeDynamic(
                    InvokeDynamicConstant { bootstrap_method_attr_index: x.0, name_and_type_index: y },
                ),
            ))
        }
    } else if const_type == 15 {
        let (j, kind) = match be_u8(input) {
            Ok(v) => v,
            Err(e) => return Err(e),
        };
        let (k, v) = match be_u16(j) {
            Ok(v) => v,
            Err(e) => return Err(e),
        };
        proof {
            lemma_advance_twice(input, j, k, 1, 2);
        }
        Ok((
            k,
            ConstantInfo::MethodHandle(
                MethodHandleConstant { reference_kind: kind, reference_index: ConstantPoolIndexRaw(v) },
            ),
        ))
    } else {
        Err(ParseError::UnrecognizedConstantTag(const_type))
    }
}

fn single_constant_parser<'a>(i: ParseData<'a>) -> (r: Result<(ParseData<'a>, ConstantInfo), ParseError>)
    ensures
        decodes(i, r, spec_constant(i.bytes(), i.start())),
{
    let (j, const_type) = match be_u8(i) {
        Ok(v) => v,
        Err(e) => return Err(e),
    };
    let (k, c) = match const_block_parser(j, const_type) {
        Ok(v) => v,
        Err(e) => return Err(e),
    };
    proof {
        let n = spec_constant_body(j.bytes(), j.start(), const_type)->Ok_0.1;
        lemma_advance_twice(i, j, k, 1, n);
    }
    Ok((k, c))
}

/// Decodes the entries of a constant pool that has `const_pool_size` slots,
/// stopping at the first entry that fails.
pub fn constant_parser<'a>(i: ParseData<'a>, const_pool_size: u16) -> (r: Result<(ParseData<'a>, Vec<ConstantInfo>), ParseError>)
    ensures
        match r {
            Ok((next, v)) => spec_constant_pool(i.bytes(), i.start(), const_pool_size as nat) matches Ok(
                (w, n),
            ) && w == v@ && i.advanced(next, n) && v@.len() <= const_pool_size + 1,
            Err(e) => spec_constant_pool(i.bytes(), i.start(), const_pool_size as nat) == Decoded::<
                Seq<ConstantInfo>,
            >::Err(e),
        },
{
    let size = const_pool_size as usize;
    let mut index: usize = 0;
    let mut input = i;
    let mut res: Vec<ConstantInfo> = Vec::new();
    let ghost consumed: int = 0;
    assert(i.bytes().skip(0) =~= i.bytes());
    while index < size
        invariant
            size == const_pool_size,
            res@.len() == index,
            index <= size + 1,
            i.advanced(input, consumed),
            spec_constant_pool(i.bytes(), i.start(), size as nat) == after(
                res@,
                consumed,
                spec_constant_pool(input.bytes(), input.start(), if index <= size { (size - index) as nat } else { 0 }),
            ),
        decreases size + 1 - index,
    {
        let ghost before = input;
        let (next, c) = match single_constant_parser(input) {
            Ok(v) => v,
            Err(e) => return Err(e),
        };
        let ghost k = spec_constant(before.bytes(), before.start())->Ok_0.1;
        let wide = match c {
            ConstantInfo::Long(_) | ConstantInfo::Double(_) => true,
            _ => false,
        };
        proof {
            lemma_advance_twice(i, before, next, consumed, k);
            let rest = spec_constant_pool(next.bytes(), next.start(), if index + 1 + (if wide { 1int } else { 0 }) <= size { (size - index - 1 - (if wide { 1int } else { 0 })) as nat } else { 0 });
            if wide {
                assert(res@ + (seq![c, ConstantInfo::Unusable] + rest->Ok_0.0) =~= res@.push(c).push(ConstantInfo::Unusable) + rest->Ok_0.0);
            } else {
                assert(res@ + (seq![c] + rest->Ok_0.0) =~= res@.push(c) + rest->Ok_0.0);
            }
        }
        res.push(c);
        if wide {
            res.push(ConstantInfo::Unusable);
            index += 1;
        }
        input = next;
        index += 1;
        proof {
            consumed = consumed + k;
        }
    }
    assert(res@ + Seq::<ConstantInfo>::empty() =~= res@);
    Ok((input, res))
}

} // verus!
