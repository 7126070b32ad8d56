//! Class files: the eager model, with every section decoded, and the lazy
//! model, which decodes fields, methods and attributes on request.
use crate::attribute_info::types::{attribute_grammar, spec_attribute, AttributeInfo};
use crate::constant_info::{lemma_pool_counts, lemma_pool_slots, logical_count, wide_count, ConstantInfo};
use crate::constant_pool::{ConstantPool, ConstantPoolIndexRaw};
use crate::field_info::{
    field_opt_value_parser, spec_field_value, FieldInfo, FieldInfoModel, FieldInfoOpt,
};
use crate::method_info::{
    attributes_search_parser, copy_method_info, first_named, lemma_search_finds_first, some_named, method_grammar, method_opt_parser, method_parser,
    skip_method_parser, spec_method, spec_method_opt, spec_search, MethodInfo, MethodInfoModel,
    MethodInfoOpt,
};
use crate::parser::{
    attributes_offset, bounded, lemma_advance_twice, lemma_repeat_item, lemma_repeat_len,
    lemma_repeat_step, methods_offset, pool_slots, repeat, spec_class, ByteRange, Decoded, ParseData,
    ParseError,
};
use crate::util::{count_view, skip_count, views};
use vstd::prelude::*;

verus! {

/// The Java releases, by the major version of their class files.
#[derive(Debug, Clone, Copy, PartialEq, Eq, Structural)]
pub enum ClassFileJavaVersion {
    /// 1.0.2 and 1.1 share a major version.
    V1_1,
    V1_2,
    V1_3,
    V1_4,
    V5,
    V6,
    V7,
    V8,
    V9,
    V10,
    V11,
    V12,
    V13,
}

/// The release whose class files have this major version.
pub open spec fn spec_java_version(major: u16) -> Option<ClassFileJavaVersion> {
    if major == 45 {
        Some(ClassFileJavaVersion::V1_1)
    } else if major == 46 {
        Some(ClassFileJavaVersion::V1_2)
    } else if major == 47 {
        Some(ClassFileJavaVersion::V1_3)
    } else if major == 48 {
        Some(ClassFileJavaVersion::V1_4)
    } else if major == 49 {
        Some(ClassFileJavaVersion::V5)
    } else if major == 50 {
        Some(ClassFileJavaVersion::V6)
    } else if major == 51 {
        Some(ClassFileJavaVersion::V7)
    } else if major == 52 {
        Some(ClassFileJavaVersion::V8)
    } else if major == 53 {
        Some(ClassFileJavaVersion::V9)
    } else if major == 54 {
        Some(ClassFileJavaVersion::V10)
    } else if major == 55 {
        Some(ClassFileJavaVersion::V11)
    } else if major == 56 {
        Some(ClassFileJavaVersion::V12)
    } else if major == 57 {
        Some(ClassFileJavaVersion::V13)
    } else {
        None
    }
}

impl ClassFileJavaVersion {
    /// The major version of this release's class files: 45 for `V1_1` up to
    /// 57 for `V13`.
    pub open spec fn spec_major(&self) -> u16 {
        match self {
            ClassFileJavaVersion::V1_1 => 45,
            ClassFileJavaVersion::V1_2 => 46,
            ClassFileJavaVersion::V1_3 => 47,
            ClassFileJavaVersion::V1_4 => 48,
            ClassFileJavaVersion::V5 => 49,
            ClassFileJavaVersion::V6 => 50,
            ClassFileJavaVersion::V7 => 51,
            ClassFileJavaVersion::V8 => 52,
            ClassFileJavaVersion::V9 => 53,
            ClassFileJavaVersion::V10 => 54,
            ClassFileJavaVersion::V11 => 55,
            ClassFileJavaVersion::V12 => 56,
            ClassFileJavaVersion::V13 => 57,
        }
    }

    /// The major version of this release's class files.
    pub fn major_version(&self) -> (r: u16)
        ensures
            r == self.spec_major(),
            45 <= r <= 57,
            spec_java_version(r) == Some(*self),
    {
        match self {
            ClassFileJavaVersion::V1_1 => 45,
            ClassFileJavaVersion::V1_2 => 46,
            ClassFileJavaVersion::V1_3 => 47,
            ClassFileJavaVersion::V1_4 => 48,
            ClassFileJavaVersion::V5 => 49,
            ClassFileJavaVersion::V6 => 50,
            ClassFileJavaVersion::V7 => 51,
            ClassFileJavaVersion::V8 => 52,
            ClassFileJavaVersion::V9 => 53,
            ClassFileJavaVersion::V10 => 54,
            ClassFileJavaVersion::V11 => 55,
            ClassFileJavaVersion::V12 => 56,
            ClassFileJavaVersion::V13 => 57,
        }
    }

    /// The release of a class file version; the minor version plays no part.
    pub fn from_version(major_version: u16, _minor_version: u16) -> (r: Option<ClassFileJavaVersion>)
        ensures
            r == spec_java_version(major_version),
            r is Some <==> 45 <= major_version <= 57,
            r matches Some(v) ==> v.spec_major() == major_version,
    {
        match major_version {
            45 => Some(ClassFileJavaVersion::V1_1),
            46 => Some(ClassFileJavaVersion::V1_2),
            47 => Some(ClassFileJavaVersion::V1_3),
            48 => Some(ClassFileJavaVersion::V1_4),
            49 => Some(ClassFileJavaVersion::V5),
            50 => Some(ClassFileJavaVersion::V6),
            51 => Some(ClassFileJavaVersion::V7),
            52 => Some(ClassFileJavaVersion::V8),
            53 => Some(ClassFileJavaVersion::V9),
            54 => Some(ClassFileJavaVersion::V10),
            55 => Some(ClassFileJavaVersion::V11),
            56 => Some(ClassFileJavaVersion::V12),
            57 => Some(ClassFileJavaVersion::V13),
            _ => None,
        }
    }
}

#[derive(Debug, Clone, Copy, PartialEq, Eq, Structural)]
pub struct ClassFileVersion {
    pub major: u16,
    pub minor: u16,
}

impl ClassFileVersion {
    pub fn into_java_version(self) -> (r: Option<ClassFileJavaVersion>)
        ensures
            r == spec_java_version(self.major),
    {
        ClassFileJavaVersion::from_version(self.major, self.minor)
    }
}

/// The bits that name a class access flag.
pub const CLASS_FLAGS_ALL: u16 = 0x7631;

/// The access flags of a class.
#[derive(Debug, Clone, Copy, PartialEq, Eq, Hash, Structural)]
pub struct ClassAccessFlags {
    pub bits: u16,
}

impl ClassAccessFlags {
    pub const PUBLIC: u16 = 0x0001;
    pub const FINAL: u16 = 0x0010;
    pub const SUPER: u16 = 0x0020;
    pub const INTERFACE: u16 = 0x0200;
    pub const ABSTRACT: u16 = 0x0400;
    pub const SYNTHETIC: u16 = 0x1000;
    pub const ANNOTATION: u16 = 0x2000;
    pub const ENUM: u16 = 0x4000;

    /// The flags among `bits`; other bits are dropped.
    pub fn from_bits_truncate(bits: u16) -> (r: ClassAccessFlags)
        ensures
            r.bits == bits & CLASS_FLAGS_ALL,
    {
        ClassAccessFlags { bits: bits & CLASS_FLAGS_ALL }
    }

    pub fn bits(&self) -> (r: u16)
        ensures
            r == self.bits,
    {
        self.bits
    }

    /// Whether every flag of `flags` is set.
    pub fn contains(&self, flags: u16) -> (r: bool)
        ensures
            r == (self.bits & flags == flags),
    {
        self.bits & flags == flags
    }
}

/// Why a lazy lookup failed. A failure concerns that call alone.
#[derive(Debug, Clone, Copy, PartialEq, Eq, Structural)]
pub enum LoadError {
    /// The index is not below the number of items.
    OutOfRange,
    /// The bytes did not decode.
    Decode(ParseError),
}

/// A class file with every section decoded.
#[derive(Debug)]
pub struct ClassFile {
    pub version: ClassFileVersion,
    pub const_pool_size: u16,
    pub const_pool: ConstantPool,
    pub access_flags: ClassAccessFlags,
    pub this_class: ConstantPoolIndexRaw,
    pub super_class: ConstantPoolIndexRaw,
    pub interfaces_count: u16,
    pub interfaces: Vec<ConstantPoolIndexRaw>,
    pub fields_count: u16,
    pub fields: Vec<FieldInfo>,
    pub methods_count: u16,
    pub methods: Vec<MethodInfo>,
    pub attributes_count: u16,
    pub attributes: Vec<AttributeInfo>,
}

/// What a `ClassFile` denotes.
pub struct ClassFileModel {
    pub version: ClassFileVersion,
    pub const_pool_size: u16,
    pub const_pool: Seq<ConstantInfo>,
    pub access_flags: ClassAccessFlags,
    pub this_class: ConstantPoolIndexRaw,
    pub super_class: ConstantPoolIndexRaw,
    pub interfaces_count: u16,
    pub interfaces: Seq<ConstantPoolIndexRaw>,
    pub fields_count: u16,
    pub fields: Seq<FieldInfoModel>,
    pub methods_count: u16,
    pub methods: Seq<MethodInfoModel>,
    pub attributes_count: u16,
    pub attributes: Seq<AttributeInfo>,
}

impl View for ClassFile {
    type V = ClassFileModel;

    open spec fn view(&self) -> ClassFileModel {
        ClassFileModel {
            version: self.version,
            const_pool_size: self.const_pool_size,
            const_pool: self.const_pool.entries(),
            access_flags: self.access_flags,
            this_class: self.this_class,
            super_class: self.super_class,
            interfaces_count: self.interfaces_count,
            interfaces: self.interfaces@,
            fields_count: self.fields_count,
            fields: views(self.fields@),
            methods_count: self.methods_count,
            methods: views(self.methods@),
            attributes_count: self.attributes_count,
            attributes: self.attributes@,
        }
    }
}

/// A counted run of items of a class file that may not be decoded yet: the
/// number of items, the position in the file where they start, and, once
/// loaded, the items.
#[derive(Debug)]
pub struct OptSmallVec<T> {
    start_pos: usize,
    count: u16,
    data: Option<Vec<T>>,
}

impl<T> OptSmallVec<T> {
    pub closed spec fn start(&self) -> int {
        self.start_pos as int
    }

    pub closed spec fn count(&self) -> nat {
        self.count as nat
    }

    pub closed spec fn cached(&self) -> Option<Seq<T>> {
        match self.data {
            Some(v) => Some(v@),
            None => None,
        }
    }

    pub(crate) fn empty(start_pos: usize, count: u16) -> (r: OptSmallVec<T>)
        ensures
            r.start() == start_pos,
            r.count() == count,
            r.cached() is None,
    {
        OptSmallVec { start_pos, count, data: None }
    }

    pub fn has_data(&self) -> (r: bool)
        ensures
            r == self.cached() is Some,
    {
        self.data.is_some()
    }

    pub fn data(&self) -> (r: Option<&[T]>)
        ensures
            match self.cached() {
                Some(v) => r matches Some(s) && s@ == v,
                None => r is None,
            },
    {
        match &self.data {
            Some(v) => Some(v.as_slice()),
            None => None,
        }
    }

    /// Stores the loaded items.
    pub fn fill(&mut self, data: Vec<T>)
        ensures
            final(self).cached() == Some(data@),
            final(self).start() == old(self).start(),
            final(self).count() == old(self).count(),
    {
        self.data = Some(data);
    }

    /// The position in the file where the items start.
    pub fn start_pos(&self) -> (r: usize)
        ensures
            r == self.start(),
    {
        self.start_pos
    }

    /// The loaded item at `index`; `None` if not loaded or past the end.
    pub fn get_opt(&self, index: u16) -> (r: Option<&T>)
        ensures
            match self.cached() {
                Some(v) => if index < v.len() {
                    r == Some(&v[index as int])
                } else {
                    r is None
                },
                None => r is None,
            },
    {
        match &self.data {
            Some(v) => {
                if (index as usize) < v.len() {
                    Some(&v[index as usize])
                } else {
                    None
                }
            },
            None => None,
        }
    }

    /// Whether there would be an item at `index`.
    pub fn contains_index(&self, index: u16) -> (r: bool)
        ensures
            r == (index < self.count()),
    {
        index < self.count
    }

    /// How many items there would be.
    pub fn len(&self) -> (r: u16)
        ensures
            r == self.count(),
    {
        self.count
    }

    pub fn is_empty(&self) -> (r: bool)
        ensures
            r == (self.count() == 0),
    {
        self.count == 0
    }
}

/// A class file whose header and constant pool are decoded and whose
/// fields, methods and attributes are decoded on request.
#[derive(Debug)]
pub struct ClassFileOpt {
    pub version: ClassFileVersion,
    pub const_pool_size: u16,
    pub const_pool: ConstantPool,
    pub access_flags: ClassAccessFlags,
    pub this_class: ConstantPoolIndexRaw,
    pub super_class: ConstantPoolIndexRaw,
    pub interfaces_count: u16,
    pub interfaces: Vec<ConstantPoolIndexRaw>,
    pub fields: OptSmallVec<FieldInfo>,
    pub methods: OptSmallVec<MethodInfo>,
    pub attributes: OptSmallVec<AttributeInfo>,
}

/// The bytes of a file from position `start` on.
pub open spec fn from_pos(data: Seq<u8>, start: int) -> Seq<u8> {
    data.subrange(start, data.len() as int)
}

/// The method at `index` of the `count` methods that start at `start`:
/// the records before it walked past, then it decoded.
pub open spec fn spec_method_at(data: Seq<u8>, start: int, index: nat) -> Result<MethodInfoModel, LoadError> {
    if start > data.len() {
        Err(LoadError::Decode(ParseError::Incomplete))
    } else {
        let s = from_pos(data, start);
        match repeat(method_grammar(), s, start, index) {
            Err(e) => Err(LoadError::Decode(e)),
            Ok((_, k)) => match spec_method(s.skip(k), start + k) {
                Ok((m, _)) => Ok(m),
                Err(e) => Err(LoadError::Decode(e)),
            },
        }
    }
}

/// As `spec_method_at`, keeping the fixed part of the method only.
pub open spec fn spec_method_opt_at(data: Seq<u8>, start: int, index: nat) -> Result<MethodInfoOpt, LoadError> {
    if start > data.len() {
        Err(LoadError::Decode(ParseError::Incomplete))
    } else {
        let s = from_pos(data, start);
        match repeat(method_grammar(), s, start, index) {
            Err(e) => Err(LoadError::Decode(e)),
            Ok((_, k)) => match spec_method_opt(s.skip(k)) {
                Ok((m, _)) => Ok(m),
                Err(e) => Err(LoadError::Decode(e)),
            },
        }
    }
}

/// All `count` methods that start at `start`.
pub open spec fn spec_all_methods(data: Seq<u8>, start: int, count: nat) -> Result<Seq<MethodInfoModel>, LoadError> {
    if start > data.len() {
        Err(LoadError::Decode(ParseError::Incomplete))
    } else {
        match repeat(method_grammar(), from_pos(data, start), start, count) {
            Ok((ms, _)) => Ok(ms),
            Err(e) => Err(LoadError::Decode(e)),
        }
    }
}

/// The views of the loaded methods, if loaded.
pub open spec fn cached_views(cached: Option<Seq<MethodInfo>>) -> Option<Seq<MethodInfoModel>> {
    match cached {
        Some(v) => Some(views(v)),
        None => None,
    }
}

/// A bulk load of the methods: what is loaded after it, and its result.
/// Loaded methods stay as they are; otherwise all of them are decoded.
pub open spec fn spec_load_all(
    cached: Option<Seq<MethodInfoModel>>,
    data: Seq<u8>,
    start: int,
    count: nat,
) -> (Option<Seq<MethodInfoModel>>, Result<(), LoadError>) {
    if cached is Some {
        (cached, Ok(()))
    } else {
        match spec_all_methods(data, start, count) {
            Ok(ms) => (Some(ms), Ok(())),
            Err(e) => (None, Err(e)),
        }
    }
}

/// A bulk load that succeeded, followed by a second one on any bytes at
/// all, loads and gives what the first alone did: the second decodes
/// nothing and cannot fail.
pub proof fn lemma_load_all_idempotent(
    cached: Option<Seq<MethodInfoModel>>,
    data: Seq<u8>,
    later: Seq<u8>,
    start: int,
    count: nat,
)
    requires
        spec_load_all(cached, data, start, count).1 is Ok,
    ensures
        spec_load_all(spec_load_all(cached, data, start, count).0, later, start, count) == spec_load_all(
            cached,
            data,
            start,
            count,
        ),
{
}

/// The fixed parts of some method records.
pub open spec fn headers_of(ms: Seq<MethodInfoModel>) -> Seq<MethodInfoOpt> {
    ms.map_values(|m: MethodInfoModel| MethodInfoOpt::of_model(m))
}

/// The first attribute named `name` of the method at `index`: where its
/// bytes lie, or `None`.
pub open spec fn spec_method_attribute_at(
    data: Seq<u8>,
    start: int,
    index: nat,
    entries: Seq<ConstantInfo>,
    name: Seq<char>,
) -> Result<Option<ByteRange>, LoadError> {
    if start > data.len() {
        Err(LoadError::Decode(ParseError::Incomplete))
    } else {
        let s = from_pos(data, start);
        match repeat(method_grammar(), s, start, index) {
            Err(e) => Err(LoadError::Decode(e)),
            Ok((_, k)) => match spec_method_opt(s.skip(k)) {
                Err(e) => Err(LoadError::Decode(e)),
                Ok((h, _)) => match spec_search(s.skip(k + 8), start + k + 8, data, entries, name, h.attributes_count as nat) {
                    Ok((x, _)) => Ok(x),
                    Err(e) => Err(LoadError::Decode(e)),
                },
            },
        }
    }
}

/// The fields from `s` on, each with its constant value index, up to `n`
/// of them or up to the first that fails, which ends the run.
pub open spec fn spec_fields_values(
    s: Seq<u8>,
    pos: int,
    data: Seq<u8>,
    entries: Seq<ConstantInfo>,
    n: nat,
) -> Seq<Result<(FieldInfoOpt, Option<ConstantPoolIndexRaw>), LoadError>>
    decreases n,
{
    if n == 0 {
        Seq::empty()
    } else {
        match spec_field_value(s, pos, data, entries) {
            Err(e) => seq![Err(LoadError::Decode(e))],
            Ok((v, k)) => seq![Ok(v)] + spec_fields_values(s.skip(k), pos + k, data, entries, (n - 1) as nat),
        }
    }
}

/// An attribute record spans no more bytes than it is given.
pub proof fn lemma_attribute_bounded()
    ensures
        bounded(attribute_grammar()),
{
    assert forall|t: Seq<u8>, p: int| (#[trigger] (attribute_grammar())(t, p)) is Ok implies 0 <= (attribute_grammar())(t, p)->Ok_0.1 <= t.len() by {
        assert((attribute_grammar())(t, p) == spec_attribute(t, p));
    }
}

/// A method record spans no more bytes than it is given.
pub proof fn lemma_method_bounded()
    ensures
        bounded(method_grammar()),
{
    lemma_attribute_bounded();
    assert forall|t: Seq<u8>, p: int| (#[trigger] (method_grammar())(t, p)) is Ok implies 0 <= (method_grammar())(t, p)->Ok_0.1 <= t.len() by {
        assert((method_grammar())(t, p) == spec_method(t, p));
        if t.len() >= 8 {
            let n = crate::parser::spec_u16(t.skip(6)) as nat;
            if repeat(attribute_grammar(), t.skip(8), p + 8, n) is Ok {
                lemma_repeat_len(attribute_grammar(), t.skip(8), p + 8, n);
            }
        }
    }
}

/// Looking up the method at an index on its own, on the bytes of a class
/// file that decodes, gives the record that decoding the whole file gives
/// at that index (the lazy form starts its methods where this looks).
pub proof fn lemma_point_lookup_matches_eager(data: Seq<u8>, index: nat)
    requires
        spec_class(data, 0) is Ok,
        index < spec_class(data, 0)->Ok_0.0.methods_count,
    ensures
        spec_method_at(data, methods_offset(data, 0) + 2, index) == Ok::<MethodInfoModel, LoadError>(
            spec_class(data, 0)->Ok_0.0.methods[index as int],
        ),
{
    let start = methods_offset(data, 0) + 2;
    let n = crate::parser::spec_u16(data.skip(methods_offset(data, 0))) as nat;
    assert(from_pos(data, start) =~= data.skip(start));
    lemma_method_bounded();
    lemma_repeat_item(method_grammar(), data.skip(start), start, n, index);
}

/// On the bytes of a class file that decodes, the pool holds one slot per
/// constant and one more per `Long` or `Double`; it holds one slot for each
/// slot the file declares (its count, which is at least 1, less one), or one more where the
/// last entry is a `Long` or `Double`; each `Long` or `Double` is followed
/// by an `Unusable` slot, and each `Unusable` slot follows one of them.
pub proof fn lemma_class_pool_slots(data: Seq<u8>)
    requires
        spec_class(data, 0) is Ok,
    ensures
        ({
            let c = spec_class(data, 0)->Ok_0.0;
            let n = pool_slots(data);
            &&& c.const_pool.len() == logical_count(c.const_pool) + wide_count(c.const_pool)
            &&& c.const_pool_size >= 1
            &&& n == c.const_pool_size - 1
            &&& n <= c.const_pool.len() <= n + 1
            &&& c.const_pool.len() == n + 1 ==> c.const_pool[n - 1].is_wide()
            &&& forall|j: int|
                0 <= j < c.const_pool.len() && (#[trigger] c.const_pool[j]).is_wide() ==> j + 1 < c.const_pool.len()
                    && c.const_pool[j + 1] is Unusable
            &&& forall|j: int|
                0 <= j < c.const_pool.len() && (#[trigger] c.const_pool[j]) is Unusable ==> j >= 1 && c.const_pool[j - 1].is_wide()
        }),
{
    lemma_pool_slots(data.skip(10), 10, pool_slots(data));
    lemma_pool_counts(data.skip(10), 10, pool_slots(data));
}

/// On the bytes of a class file that decodes, the search of its class-level
/// attributes by name, where the lazy form starts them, finds one exactly
/// when an attribute's name index addresses a `Utf8` constant with that
/// text, and then the first such attribute.
pub proof fn lemma_class_attribute_search(data: Seq<u8>, name: Seq<char>)
    requires
        spec_class(data, 0) is Ok,
    ensures
        ({
            let c = spec_class(data, 0)->Ok_0.0;
            let start = attributes_offset(data, 0) + 2;
            let r = spec_search(from_pos(data, start), start, data, c.const_pool, name, c.attributes_count as nat);
            &&& r is Ok
            &&& (r->Ok_0.0 is Some <==> some_named(data, c.const_pool, c.attributes, name))
            &&& (r->Ok_0.0 is Some ==> exists|j: int|
                first_named(data, c.const_pool, c.attributes, name, j) && r->Ok_0.0->Some_0 == c.attributes[j].info)
        }),
{
    let start = attributes_offset(data, 0) + 2;
    assert(from_pos(data, start) =~= data.skip(start));
    let c = spec_class(data, 0)->Ok_0.0;
    lemma_search_finds_first(data.skip(start), start, data, c.const_pool, name, c.attributes_count as nat);
}

/// The cursor over a file from `start` on, or the failure for a position
/// past its end.
fn cursor_at<'a>(data: &'a [u8], start: usize) -> (r: Result<ParseData<'a>, LoadError>)
    ensures
        start > data@.len() ==> r == Err::<ParseData<'a>, LoadError>(LoadError::Decode(ParseError::Incomplete)),
        start <= data@.len() ==> (r matches Ok(i) && i.bytes() == from_pos(data@, start as int) && i.start() == start),
{
    if start > data.len() {
        return Err(LoadError::Decode(ParseError::Incomplete));
    }
    Ok(ParseData::from_range(data, ByteRange { start, end: data.len() }))
}

impl ClassFileOpt {
    /// Where the first class-level attribute named `name` lies in the file.
    pub fn load_attribute_with_name(&self, data: &[u8], name: &str) -> (r: Result<Option<ByteRange>, LoadError>)
        ensures
            self.attributes.start() > data@.len() ==> r == Err::<Option<ByteRange>, LoadError>(
                LoadError::Decode(ParseError::Incomplete),
            ),
            self.attributes.start() <= data@.len() ==> match spec_search(
                from_pos(data@, self.attributes.start()),
                self.attributes.start(),
                data@,
                self.const_pool.entries(),
                name@,
                self.attributes.count(),
            ) {
                Ok((x, _)) => r == Ok::<Option<ByteRange>, LoadError>(x),
                Err(e) => r == Err::<Option<ByteRange>, LoadError>(LoadError::Decode(e)),
            },
    {
        let input = cursor_at(data, self.attributes.start_pos())?;
        match attributes_search_parser(input, data, &self.const_pool, name, self.attributes.len()) {
            Ok((_, info)) => Ok(info),
            Err(e) => Err(LoadError::Decode(e)),
        }
    }

    /// The method at `index`: from the loaded methods where they are loaded,
    /// else decoded on its own, after walking past the records before it,
    /// and not kept.
    pub fn load_method_at(&self, data: &[u8], index: u16) -> (r: Result<MethodInfo, LoadError>)
        ensures
            index >= self.methods.count() ==> r == Err::<MethodInfo, LoadError>(LoadError::OutOfRange),
            index < self.methods.count() ==> match self.methods.cached() {
                Some(v) if index < v.len() => r matches Ok(m) && m@ == v[index as int]@,
                _ => match spec_method_at(data@, self.methods.start(), index as nat) {
                    Ok(m) => r matches Ok(x) && x@ == m,
                    Err(e) => r == Err::<MethodInfo, LoadError>(e),
                },
            },
    {
        if !self.methods.contains_index(index) {
            return Err(LoadError::OutOfRange);
        }
        if let Some(method) = self.methods.get_opt(index) {
            return Ok(copy_method_info(method));
        }
        let input = cursor_at(data, self.methods.start_pos())?;
        let input = match skip_count::<MethodInfoModel, _>(skip_method_parser, Ghost(method_grammar()), input, index as usize) {
            Ok(i) => i,
            Err(e) => return Err(LoadError::Decode(e)),
        };
        match method_parser(input) {
            Ok((_, m)) => Ok(m),
            Err(e) => Err(LoadError::Decode(e)),
        }
    }

    /// The fixed part of the method at `index`, its attributes left unread.
    pub fn load_method_opt_at(&self, data: &[u8], index: u16) -> (r: Result<MethodInfoOpt, LoadError>)
        ensures
            index >= self.methods.count() ==> r == Err::<MethodInfoOpt, LoadError>(LoadError::OutOfRange),
            index < self.methods.count() ==> match self.methods.cached() {
                Some(v) if index < v.len() => r == Ok::<MethodInfoOpt, LoadError>(MethodInfoOpt::of_model(v[index as int]@)),
                _ => r == spec_method_opt_at(data@, self.methods.start(), index as nat),
            },
    {
        if !self.methods.contains_index(index) {
            return Err(LoadError::OutOfRange);
        }
        if let Some(method) = self.methods.get_opt(index) {
            return Ok(MethodInfoOpt::from_method_info(method));
        }
        let input = cursor_at(data, self.methods.start_pos())?;
        let input = match skip_count::<MethodInfoModel, _>(skip_method_parser, Ghost(method_grammar()), input, index as usize) {
            Ok(i) => i,
            Err(e) => return Err(LoadError::Decode(e)),
        };
        match method_opt_parser(input) {
            Ok((_, m)) => Ok(m),
            Err(e) => Err(LoadError::Decode(e)),
        }
    }

    /// The fixed parts of all methods, in order: from the loaded methods
    /// where they are loaded, else by walking the records.
    pub fn load_method_opt_iter(&self, data: &[u8]) -> (r: Result<Vec<MethodInfoOpt>, LoadError>)
        ensures
            match self.methods.cached() {
                Some(v) => r matches Ok(hs) && hs@ == headers_of(views(v)),
                None => match spec_all_methods(data@, self.methods.start(), self.methods.count()) {
                    Ok(ms) => r matches Ok(hs) && hs@ == headers_of(ms),
                    Err(e) => r == Err::<Vec<MethodInfoOpt>, LoadError>(e),
                },
            },
    {
        let mut res: Vec<MethodInfoOpt> = Vec::new();
        if let Some(methods) = self.methods.data() {
            let mut k: usize = 0;
            proof {
                reveal(views);
                assert(headers_of(views(methods@.take(0))) =~= Seq::<MethodInfoOpt>::empty());
            }
            while k < methods.len()
                invariant
                    k <= methods@.len(),
                    self.methods.cached() == Some(methods@),
                    res@ == headers_of(views(methods@.take(k as int))),
                decreases methods@.len() - k,
            {
                res.push(MethodInfoOpt::from_method_info(&methods[k]));
                proof {
                    reveal(views);
                    assert(methods@.take(k + 1) =~= methods@.take(k as int).push(methods@[k as int]));
                    assert(headers_of(views(methods@.take(k + 1))) =~= headers_of(views(methods@.take(k as int))).push(
                        MethodInfoOpt::of_model(methods@[k as int]@),
                    ));
                }
                k += 1;
            }
            assert(methods@.take(k as int) =~= methods@);
            return Ok(res);
        }
        let input = cursor_at(data, self.methods.start_pos())?;
        let n = self.methods.len();
        let ghost whole = repeat(method_grammar(), input.bytes(), input.start(), n as nat);
        let ghost acc: Seq<MethodInfoModel> = Seq::empty();
        let ghost consumed: int = 0;
        let mut cur = input;
        let mut k: u16 = 0;
        assert(input.bytes().skip(0) =~= input.bytes());
        while k < n
            invariant
                k <= n,
                n == self.methods.count(),
                self.methods.cached() is None,
                self.methods.start() <= data@.len(),
                input.bytes() == from_pos(data@, self.methods.start()),
                input.start() == self.methods.start(),
                whole == repeat(method_grammar(), input.bytes(), input.start(), n as nat),
                input.advanced(cur, consumed),
                res@ == headers_of(acc),
                whole == crate::parser::after(acc, consumed, repeat(method_grammar(), cur.bytes(), cur.start(), (n - k) as nat)),
            decreases n - k,
        {
            let ghost before = cur;
            let header = match method_opt_parser(cur) {
                Ok((_, h)) => h,
                Err(e) => return Err(LoadError::Decode(e)),
            };
            let next = match skip_method_parser(cur) {
                Ok(x) => x,
                Err(e) => return Err(LoadError::Decode(e)),
            };
            proof {
                let (m, w) = spec_method(before.bytes(), before.start())->Ok_0;
                lemma_repeat_step(method_grammar(), acc, consumed, before.bytes(), before.start(), (n - k) as nat);
                lemma_advance_twice(input, before, next, consumed, w);
                assert(headers_of(acc.push(m)) =~= headers_of(acc).push(MethodInfoOpt::of_model(m)));
                acc = acc.push(m);
                consumed = consumed + w;
            }
            res.push(header);
            cur = next;
            k += 1;
        }
        assert(acc + Seq::<MethodInfoModel>::empty() =~= acc);
        Ok(res)
    }

    /// Where the first attribute named `name` of the method at `index` lies
    /// in the file, found by walking the records before it and its
    /// attribute list, without decoding any attribute.
    pub fn load_method_attribute_info_at_with_name(&self, data: &[u8], index: u16, name: &str) -> (r: Result<Option<ByteRange>, LoadError>)
        ensures
            index >= self.methods.count() ==> r == Err::<Option<ByteRange>, LoadError>(LoadError::OutOfRange),
            index < self.methods.count() ==> r == spec_method_attribute_at(
                data@,
                self.methods.start(),
                index as nat,
                self.const_pool.entries(),
                name@,
            ),
    {
        if !self.methods.contains_index(index) {
            return Err(LoadError::OutOfRange);
        }
        let input = cursor_at(data, self.methods.start_pos())?;
        let input = match skip_count::<MethodInfoModel, _>(skip_method_parser, Ghost(method_grammar()), input, index as usize) {
            Ok(i) => i,
            Err(e) => return Err(LoadError::Decode(e)),
        };
        let (attributes, method) = match method_opt_parser(input) {
            Ok(x) => x,
            Err(e) => return Err(LoadError::Decode(e)),
        };
        proof {
            let s = from_pos(data@, self.methods.start());
            let k = repeat(method_grammar(), s, self.methods.start(), index as nat)->Ok_0.1;
            assert(s.skip(k).skip(8) =~= s.skip(k + 8));
        }
        match attributes_search_parser(attributes, data, &self.const_pool, name, method.attributes_count) {
            Ok((_, info)) => Ok(info),
            Err(e) => Err(LoadError::Decode(e)),
        }
    }

    /// Each field's fixed part with the index its `ConstantValue` attribute
    /// holds, in order; a failure ends the list.
    pub fn load_fields_values_iter(&self, data: &[u8]) -> (r: Vec<Result<(FieldInfoOpt, Option<ConstantPoolIndexRaw>), LoadError>>)
        ensures
            r@ == if self.fields.count() == 0 {
                Seq::empty()
            } else if self.fields.start() > data@.len() {
                seq![Err(LoadError::Decode(ParseError::Incomplete))]
            } else {
                spec_fields_values(
                    from_pos(data@, self.fields.start()),
                    self.fields.start(),
                    data@,
                    self.const_pool.entries(),
                    self.fields.count(),
                )
            },
    {
        let mut res: Vec<Result<(FieldInfoOpt, Option<ConstantPoolIndexRaw>), LoadError>> = Vec::new();
        let n = self.fields.len();
        if n == 0 {
            return res;
        }
        let mut cur = match cursor_at(data, self.fields.start_pos()) {
            Ok(i) => i,
            Err(e) => {
                res.push(Err(e));
                return res;
            },
        };
        let ghost whole = spec_fields_values(cur.bytes(), cur.start(), data@, self.const_pool.entries(), n as nat);
        let mut k: u16 = 0;
        while k < n
            invariant
                k <= n,
                n == self.fields.count(),
                self.fields.start() <= data@.len(),
                whole == spec_fields_values(
                    from_pos(data@, self.fields.start()),
                    self.fields.start(),
                    data@,
                    self.const_pool.entries(),
                    self.fields.count(),
                ),
                whole == res@ + spec_fields_values(cur.bytes(), cur.start(), data@, self.const_pool.entries(), (n - k) as nat),
            decreases n - k,
        {
            match field_opt_value_parser(cur, data, &self.const_pool) {
                Ok((next, v)) => {
                    proof {
                        let rest = spec_fields_values(next.bytes(), next.start(), data@, self.const_pool.entries(), (n - k - 1) as nat);
                        assert(res@ + (seq![Ok::<(FieldInfoOpt, Option<ConstantPoolIndexRaw>), LoadError>(v)] + rest) =~= res@.push(Ok(v)) + rest);
                    }
                    res.push(Ok(v));
                    cur = next;
                },
                Err(e) => {
                    let ghost before = res@;
                    res.push(Err(LoadError::Decode(e)));
                    assert(res@ =~= before + seq![Err::<(FieldInfoOpt, Option<ConstantPoolIndexRaw>), LoadError>(LoadError::Decode(e))]);
                    return res;
                },
            }
            k += 1;
        }
        assert(res@ + Seq::empty() =~= res@);
        res
    }

    /// Decodes and keeps every method. Once the methods are loaded this
    /// does nothing: it neither decodes again nor fails.
    pub fn load_all_methods_mut(&mut self, data: &[u8]) -> (r: Result<(), LoadError>)
        ensures
            ({
                let (after, res) = spec_load_all(
                    cached_views(old(self).methods.cached()),
                    data@,
                    old(self).methods.start(),
                    old(self).methods.count(),
                );
                cached_views(final(self).methods.cached()) == after && r == res
            }),
            old(self).methods.cached() is Some ==> r is Ok && final(self).methods.cached() == old(self).methods.cached(),
            old(self).methods.cached() is None ==> match spec_all_methods(data@, old(self).methods.start(), old(self).methods.count()) {
                Ok(ms) => r is Ok && (final(self).methods.cached() matches Some(v) && views(v) == ms),
                Err(e) => r == Err::<(), LoadError>(e) && final(self).methods.cached() is None,
            },
            final(self).methods.start() == old(self).methods.start(),
            final(self).methods.count() == old(self).methods.count(),
            final(self).version == old(self).version,
            final(self).const_pool_size == old(self).const_pool_size,
            final(self).access_flags == old(self).access_flags,
            final(self).this_class == old(self).this_class,
            final(self).super_class == old(self).super_class,
            final(self).interfaces_count == old(self).interfaces_count,
            final(self).interfaces@ == old(self).interfaces@,
            final(self).fields == old(self).fields,
            final(self).attributes == old(self).attributes,
            final(self).const_pool == old(self).const_pool,
    {
        if self.methods.has_data() {
            return Ok(());
        }
        let input = cursor_at(data, self.methods.start_pos())?;
        let methods = match count_view(method_parser, Ghost(method_grammar()), input, self.methods.len() as usize) {
            Ok((_, m)) => m,
            Err(e) => return Err(LoadError::Decode(e)),
        };
        self.methods.fill(methods);
        Ok(())
    }
}

} // verus!
