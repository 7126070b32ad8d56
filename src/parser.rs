//! The byte cursor, the big-endian readers that every decoder is built from,
//! and the decoders for a whole class file.
use crate::attribute_info::parser::{attribute_parser, skip_attribute_parser};
use crate::attribute_info::types::{attribute_grammar, index_grammar, AttributeInfo};
use crate::constant_info::{constant_parser, spec_constant_pool, ConstantInfo};
use crate::constant_pool::{ConstantPool, ConstantPoolIndexRaw};
use crate::field_info::{field_grammar, field_parser, skip_field_parser, FieldInfoModel};
use crate::method_info::{method_grammar, method_parser, skip_method_parser, MethodInfoModel};
use crate::types::{ClassAccessFlags, ClassFile, ClassFileModel, ClassFileOpt, ClassFileVersion, OptSmallVec, CLASS_FLAGS_ALL};
use crate::util::{count, count_view, skip_count};
use vstd::prelude::*;
use vstd::slice::slice_subrange;

verus! {

/// Why a decode failed.
#[derive(Debug, Clone, Copy, PartialEq, Eq, Structural)]
pub enum ParseError {
    /// Fewer bytes remain than a fixed-size field or a declared length needs.
    Incomplete,
    /// The file does not start with `CA FE BA BE`.
    BadMagic,
    /// A constant-pool entry starts with a tag byte that names no constant kind.
    UnrecognizedConstantTag(u8),
    /// A stack map frame starts with a tag byte that names no frame kind.
    UnrecognizedFrameTag(u8),
    /// A verification type item starts with a tag byte of 9 or more.
    UnrecognizedVerificationTag(u8),
    /// The constant pool would hold more than 65535 slots.
    ConstantPoolTooLarge,
    /// The constant-pool count is 0; it is the number of slots plus one, so
    /// it is at least 1.
    InvalidConstantPoolCount,
}

/// The positions `start..end` of some bytes of a file.
#[derive(Debug, Clone, Copy, PartialEq, Eq, Hash, Structural)]
pub struct ByteRange {
    pub start: usize,
    pub end: usize,
}

/// A view of some bytes of a file together with the position, in the whole
/// file, at which those bytes start.
#[derive(Debug, Clone, Copy)]
pub struct ParseData<'a> {
    data: &'a [u8],
    pos: usize,
}

impl<'a> ParseData<'a> {
    #[verifier::type_invariant]
    spec fn fits(&self) -> bool {
        self.pos + self.data@.len() <= usize::MAX
    }

    /// The bytes that this cursor still holds.
    pub closed spec fn bytes(&self) -> Seq<u8> {
        self.data@
    }

    /// The position in the whole file of the first byte that this cursor holds.
    pub closed spec fn start(&self) -> int {
        self.pos as int
    }

    /// `next` is this cursor with its first `n` bytes dropped.
    pub open spec fn advanced(&self, next: ParseData<'a>, n: int) -> bool {
        &&& 0 <= n <= self.bytes().len()
        &&& next.bytes() == self.bytes().skip(n)
        &&& next.start() == self.start() + n
    }

    pub fn new(data: &'a [u8]) -> (r: ParseData<'a>)
        ensures
            r.bytes() == data@,
            r.start() == 0,
    {
        let len = data.len();
        assert(len == data@.len());
        ParseData { data, pos: 0 }
    }

    /// The cursor over `data[range]`, positioned at `range.start`.
    pub fn from_range(data: &'a [u8], range: ByteRange) -> (r: ParseData<'a>)
        requires
            range.start <= range.end <= data@.len(),
        ensures
            r.bytes() == data@.subrange(range.start as int, range.end as int),
            r.start() == range.start,
    {
        let pos = range.start;
        let data = slice_subrange(data, range.start, range.end);
        ParseData { data, pos }
    }

    pub fn data(&self) -> (r: &'a [u8])
        ensures
            r@ == self.bytes(),
    {
        self.data
    }

    pub fn len(&self) -> (r: usize)
        ensures
            r == self.bytes().len(),
    {
        self.data.len()
    }

    pub fn is_empty(&self) -> (r: bool)
        ensures
            r == (self.bytes().len() == 0),
    {
        self.data.len() == 0
    }

    pub fn pos(&self) -> (r: usize)
        ensures
            r == self.start(),
            self.start() + self.bytes().len() <= usize::MAX,
    {
        proof {
            use_type_invariant(self);
        }
        self.pos
    }

    /// The positions in the whole file of the bytes that this cursor holds.
    pub fn as_range(&self) -> (r: ByteRange)
        ensures
            r.start == self.start(),
            r.end == self.start() + self.bytes().len(),
    {
        proof {
            use_type_invariant(self);
        }
        ByteRange { start: self.pos, end: self.pos + self.data.len() }
    }

    /// The first `count` bytes, at the same position.
    pub fn take(&self, count: usize) -> (r: ParseData<'a>)
        requires
            count <= self.bytes().len(),
        ensures
            r.bytes() == self.bytes().take(count as int),
            r.start() == self.start(),
    {
        proof {
            use_type_invariant(self);
        }
        ParseData { data: slice_subrange(self.data, 0, count), pos: self.pos }
    }

    /// The bytes after the first `from`.
    pub fn slice(&self, from: usize) -> (r: ParseData<'a>)
        requires
            from <= self.bytes().len(),
        ensures
            self.advanced(r, from as int),
    {
        proof {
            use_type_invariant(self);
        }
        ParseData { data: slice_subrange(self.data, from, self.data.len()), pos: self.pos + from }
    }

    /// Splits off the first `count` bytes: the cursor after them, then the
    /// cursor over them.
    pub fn take_split(&self, count: usize) -> (r: (ParseData<'a>, ParseData<'a>))
        requires
            count <= self.bytes().len(),
        ensures
            self.advanced(r.0, count as int),
            r.1.bytes() == self.bytes().take(count as int),
            r.1.start() == self.start(),
    {
        (self.slice(count), self.take(count))
    }
}


/// Dropping `n` bytes and then `m` more is dropping `n + m`.
pub proof fn lemma_advance_twice<'a>(
    a: ParseData<'a>,
    b: ParseData<'a>,
    c: ParseData<'a>,
    n: int,
    m: int,
)
    requires
        a.advanced(b, n),
        b.advanced(c, m),
    ensures
        a.advanced(c, n + m),
{
    assert(a.bytes().skip(n).skip(m) =~= a.bytes().skip(n + m));
}

/// What a decoder makes of some bytes that start at a position of the file:
/// the value and the number of bytes it spans, or why it failed.
pub type Decoded<T> = Result<(T, int), ParseError>;

/// A decoder of one item, as a function of the bytes and of their position.
pub type Grammar<T> = spec_fn(Seq<u8>, int) -> Decoded<T>;

/// The exec decoder `r` of `i` did what the grammar result `g` says: on
/// success it returned that value and the cursor after the bytes it spans.
pub open spec fn decodes<'a, T>(
    i: ParseData<'a>,
    r: Result<(ParseData<'a>, T), ParseError>,
    g: Decoded<T>,
) -> bool {
    match r {
        Ok((next, v)) => g matches Ok((w, n)) && w == v && i.advanced(next, n),
        Err(e) => g == Decoded::<T>::Err(e),
    }
}

/// As `decodes`, for an exec value whose view is what the grammar yields.
pub open spec fn decodes_view<'a, T: View>(
    i: ParseData<'a>,
    r: Result<(ParseData<'a>, T), ParseError>,
    g: Decoded<T::V>,
) -> bool {
    match r {
        Ok((next, v)) => g matches Ok((w, n)) && w == v@ && i.advanced(next, n),
        Err(e) => g == Decoded::<T::V>::Err(e),
    }
}

/// The big-endian value of the first two bytes.
pub open spec fn spec_u16(s: Seq<u8>) -> u16 {
    (s[0] as int * 256 + s[1] as int) as u16
}

/// The big-endian value of the first four bytes.
pub open spec fn spec_u32(s: Seq<u8>) -> u32 {
    (((s[0] as int * 256 + s[1] as int) * 256 + s[2] as int) * 256 + s[3] as int) as u32
}

/// The big-endian value of the first eight bytes.
pub open spec fn spec_u64(s: Seq<u8>) -> u64 {
    (spec_u32(s) as int * 0x1_0000_0000 + spec_u32(s.skip(4)) as int) as u64
}

/// A fixed-width field of `n` bytes that holds `v`: present, or truncated.
pub open spec fn fixed<T>(s: Seq<u8>, n: int, v: T) -> Decoded<T> {
    if s.len() >= n {
        Ok((v, n))
    } else {
        Err(ParseError::Incomplete)
    }
}

/// `n` items of grammar `g`, one after the other.
pub open spec fn repeat<T>(g: Grammar<T>, s: Seq<u8>, pos: int, n: nat) -> Decoded<Seq<T>>
    decreases n,
{
    if n == 0 {
        Ok((Seq::empty(), 0))
    } else {
        match g(s, pos) {
            Err(e) => Err(e),
            Ok((v, k)) => match repeat(g, s.skip(k), pos + k, (n - 1) as nat) {
                Err(e) => Err(e),
                Ok((vs, m)) => Ok((seq![v] + vs, k + m)),
            },
        }
    }
}

/// `r`, with `acc` put before its items and `c` added to its length.
pub open spec fn after<T>(acc: Seq<T>, c: int, r: Decoded<Seq<T>>) -> Decoded<Seq<T>> {
    match r {
        Ok((vs, m)) => Ok((acc + vs, c + m)),
        Err(e) => Err(e),
    }
}

/// One step of a loop that decodes the items of `repeat` in turn.
pub proof fn lemma_repeat_step<T>(
    g: Grammar<T>,
    acc: Seq<T>,
    c: int,
    s: Seq<u8>,
    pos: int,
    n: nat,
)
    requires
        n > 0,
        g(s, pos) is Ok,
    ensures
        after(acc, c, repeat(g, s, pos, n)) == after(
            acc.push(g(s, pos)->Ok_0.0),
            c + g(s, pos)->Ok_0.1,
            repeat(
                g,
                s.skip(g(s, pos)->Ok_0.1),
                pos + g(s, pos)->Ok_0.1,
                (n - 1) as nat,
            ),
        ),
{
    let (v, k) = g(s, pos)->Ok_0;
    let rest = repeat(g, s.skip(k), pos + k, (n - 1) as nat);
    if let Ok((vs, m)) = rest {
        assert(acc + (seq![v] + vs) =~= acc.push(v) + vs);
    }
}

/// The big-endian 16-bit integer at offset `k` of `d`.
pub fn u16_at(d: &[u8], k: usize) -> (r: u16)
    requires
        k + 2 <= d@.len(),
    ensures
        r == spec_u16(d@.skip(k as int)),
{
    (d[k] as u16) * 256 + (d[k + 1] as u16)
}

/// The big-endian 32-bit integer at offset `k` of `d`.
pub fn u32_at(d: &[u8], k: usize) -> (r: u32)
    requires
        k + 4 <= d@.len(),
    ensures
        r == spec_u32(d@.skip(k as int)),
{
    (((d[k] as u32) * 256 + (d[k + 1] as u32)) * 256 + (d[k + 2] as u32)) * 256 + (d[k + 3] as u32)
}

/// A grammar that never spans more bytes than it is given.
pub open spec fn bounded<T>(g: Grammar<T>) -> bool {
    forall|t: Seq<u8>, p: int| (#[trigger] g(t, p)) is Ok ==> 0 <= g(t, p)->Ok_0.1 <= t.len()
}

/// A run decoded by `repeat` holds as many items as asked for, and spans
/// no more bytes than it is given where each item does not.
pub proof fn lemma_repeat_len<T>(g: Grammar<T>, s: Seq<u8>, pos: int, n: nat)
    requires
        repeat(g, s, pos, n) is Ok,
    ensures
        repeat(g, s, pos, n)->Ok_0.0.len() == n,
        bounded(g) ==> 0 <= repeat(g, s, pos, n)->Ok_0.1 <= s.len(),
    decreases n,
{
    if n > 0 {
        let k = g(s, pos)->Ok_0.1;
        lemma_repeat_len(g, s.skip(k), pos + k, (n - 1) as nat);
    }
}

/// Item `i` of a run is what the grammar decodes after walking past the
/// `i` items before it.
pub proof fn lemma_repeat_item<T>(g: Grammar<T>, s: Seq<u8>, pos: int, n: nat, i: nat)
    requires
        bounded(g),
        repeat(g, s, pos, n) is Ok,
        i < n,
    ensures
        ({
            let k = repeat(g, s, pos, i)->Ok_0.1;
            &&& repeat(g, s, pos, i) is Ok
            &&& 0 <= k <= s.len()
            &&& g(s.skip(k), pos + k) is Ok
            &&& g(s.skip(k), pos + k)->Ok_0.0 == repeat(g, s, pos, n)->Ok_0.0[i as int]
        }),
    decreases i,
{
    let (v0, k0) = g(s, pos)->Ok_0;
    lemma_repeat_len(g, s.skip(k0), pos + k0, (n - 1) as nat);
    if i == 0 {
        assert(s.skip(0) =~= s);
    } else {
        lemma_repeat_item(g, s.skip(k0), pos + k0, (n - 1) as nat, (i - 1) as nat);
        let k1 = repeat(g, s.skip(k0), pos + k0, (i - 1) as nat)->Ok_0.1;
        assert(s.skip(k0).skip(k1) =~= s.skip(k0 + k1));
    }
}

/// One byte.
pub fn be_u8<'a>(i: ParseData<'a>) -> (r: Result<(ParseData<'a>, u8), ParseError>)
    ensures
        decodes(i, r, fixed(i.bytes(), 1, i.bytes()[0])),
{
    if i.len() < 1 {
        return Err(ParseError::Incomplete);
    }
    let b = i.data()[0];
    Ok((i.slice(1), b))
}

/// A big-endian 16-bit integer.
pub fn be_u16<'a>(i: ParseData<'a>) -> (r: Result<(ParseData<'a>, u16), ParseError>)
    ensures
        decodes(i, r, fixed(i.bytes(), 2, spec_u16(i.bytes()))),
{
    if i.len() < 2 {
        return Err(ParseError::Incomplete);
    }
    let d = i.data();
    let v = (d[0] as u16) * 256 + (d[1] as u16);
    Ok((i.slice(2), v))
}

/// A big-endian 32-bit integer.
pub fn be_u32<'a>(i: ParseData<'a>) -> (r: Result<(ParseData<'a>, u32), ParseError>)
    ensures
        decodes(i, r, fixed(i.bytes(), 4, spec_u32(i.bytes()))),
{
    if i.len() < 4 {
        return Err(ParseError::Incomplete);
    }
    let d = i.data();
    let v = (((d[0] as u32) * 256 + (d[1] as u32)) * 256 + (d[2] as u32)) * 256 + (d[3] as u32);
    Ok((i.slice(4), v))
}

/// A big-endian 64-bit integer.
pub fn be_u64<'a>(i: ParseData<'a>) -> (r: Result<(ParseData<'a>, u64), ParseError>)
    ensures
        decodes(i, r, fixed(i.bytes(), 8, spec_u64(i.bytes()))),
{
    if i.len() < 8 {
        return Err(ParseError::Incomplete);
    }
    let (j, hi) = match be_u32(i) {
        Ok(x) => x,
        Err(e) => return Err(e),
    };
    let (k, lo) = match be_u32(j) {
        Ok(x) => x,
        Err(e) => return Err(e),
    };
    proof {
        lemma_advance_twice(i, j, k, 4, 4);
    }
    Ok((k, (hi as u64) * 0x1_0000_0000 + (lo as u64)))
}

/// Exactly `count` bytes, as a cursor over them.
pub fn take<'a>(i: ParseData<'a>, count: usize) -> (r: Result<(ParseData<'a>, ParseData<'a>), ParseError>)
    ensures
        count <= i.bytes().len() ==> (r matches Ok((next, taken)) && i.advanced(next, count as int)
            && taken.bytes() == i.bytes().take(count as int) && taken.start() == i.start()),
        count > i.bytes().len() ==> r == Err::<(ParseData<'a>, ParseData<'a>), ParseError>(
            ParseError::Incomplete,
        ),
{
    if i.len() < count {
        return Err(ParseError::Incomplete);
    }
    Ok(i.take_split(count))
}


/// The number of constant-pool slots that a class file declares: its count
/// less one (a count of 0 is refused before this is used).
pub open spec fn pool_slots(s: Seq<u8>) -> nat {
    (spec_u16(s.skip(8)) - 1) as nat
}

/// The constant pool of a class file that starts at `pos`.
pub open spec fn pool_part(s: Seq<u8>, pos: int) -> Decoded<Seq<ConstantInfo>> {
    spec_constant_pool(s.skip(10), pos + 10, pool_slots(s))
}

/// The offset of the access flags: just past the constant pool.
pub open spec fn flags_offset(s: Seq<u8>, pos: int) -> int {
    10 + pool_part(s, pos)->Ok_0.1
}

pub open spec fn interfaces_part(s: Seq<u8>, pos: int) -> Decoded<Seq<ConstantPoolIndexRaw>> {
    let a = flags_offset(s, pos);
    repeat(index_grammar(), s.skip(a + 8), pos + a + 8, spec_u16(s.skip(a + 6)) as nat)
}

/// The offset of the field count.
pub open spec fn fields_offset(s: Seq<u8>, pos: int) -> int {
    flags_offset(s, pos) + 8 + interfaces_part(s, pos)->Ok_0.1
}

pub open spec fn fields_part(s: Seq<u8>, pos: int) -> Decoded<Seq<FieldInfoModel>> {
    let b = fields_offset(s, pos);
    repeat(field_grammar(), s.skip(b + 2), pos + b + 2, spec_u16(s.skip(b)) as nat)
}

/// The offset of the method count.
pub open spec fn methods_offset(s: Seq<u8>, pos: int) -> int {
    fields_offset(s, pos) + 2 + fields_part(s, pos)->Ok_0.1
}

pub open spec fn methods_part(s: Seq<u8>, pos: int) -> Decoded<Seq<MethodInfoModel>> {
    let c = methods_offset(s, pos);
    repeat(method_grammar(), s.skip(c + 2), pos + c + 2, spec_u16(s.skip(c)) as nat)
}

/// The offset of the class attribute count.
pub open spec fn attributes_offset(s: Seq<u8>, pos: int) -> int {
    methods_offset(s, pos) + 2 + methods_part(s, pos)->Ok_0.1
}

pub open spec fn attributes_part(s: Seq<u8>, pos: int) -> Decoded<Seq<AttributeInfo>> {
    let d = attributes_offset(s, pos);
    repeat(attribute_grammar(), s.skip(d + 2), pos + d + 2, spec_u16(s.skip(d)) as nat)
}

/// Whether the bytes start with `CA FE BA BE`.
pub open spec fn has_magic(s: Seq<u8>) -> bool {
    s[0] == 0xCA && s[1] == 0xFE && s[2] == 0xBA && s[3] == 0xBE
}

/// A class file: magic, minor and major version, constant pool, access
/// flags, this and super class, interfaces, fields, methods, attributes.
pub open spec fn spec_class(s: Seq<u8>, pos: int) -> Decoded<ClassFileModel> {
    let a = flags_offset(s, pos);
    let b = fields_offset(s, pos);
    let c = methods_offset(s, pos);
    let d = attributes_offset(s, pos);
    if s.len() < 4 {
        Err(ParseError::Incomplete)
    } else if !has_magic(s) {
        Err(ParseError::BadMagic)
    } else if s.len() < 10 {
        Err(ParseError::Incomplete)
    } else if spec_u16(s.skip(8)) == 0 {
        Err(ParseError::InvalidConstantPoolCount)
    } else if pool_part(s, pos) is Err {
        Err(pool_part(s, pos)->Err_0)
    } else if s.len() < a + 8 {
        Err(ParseError::Incomplete)
    } else if interfaces_part(s, pos) is Err {
        Err(interfaces_part(s, pos)->Err_0)
    } else if s.len() < b + 2 {
        Err(ParseError::Incomplete)
    } else if fields_part(s, pos) is Err {
        Err(fields_part(s, pos)->Err_0)
    } else if s.len() < c + 2 {
        Err(ParseError::Incomplete)
    } else if methods_part(s, pos) is Err {
        Err(methods_part(s, pos)->Err_0)
    } else if s.len() < d + 2 {
        Err(ParseError::Incomplete)
    } else if attributes_part(s, pos) is Err {
        Err(attributes_part(s, pos)->Err_0)
    } else {
        Ok((
            ClassFileModel {
                version: ClassFileVersion { major: spec_u16(s.skip(6)), minor: spec_u16(s.skip(4)) },
                const_pool_size: spec_u16(s.skip(8)),
                const_pool: pool_part(s, pos)->Ok_0.0,
                access_flags: ClassAccessFlags { bits: spec_u16(s.skip(a)) & CLASS_FLAGS_ALL },
                this_class: ConstantPoolIndexRaw(spec_u16(s.skip(a + 2))),
                super_class: ConstantPoolIndexRaw(spec_u16(s.skip(a + 4))),
                interfaces_count: spec_u16(s.skip(a + 6)),
                interfaces: interfaces_part(s, pos)->Ok_0.0,
                fields_count: spec_u16(s.skip(b)),
                fields: fields_part(s, pos)->Ok_0.0,
                methods_count: spec_u16(s.skip(c)),
                methods: methods_part(s, pos)->Ok_0.0,
                attributes_count: spec_u16(s.skip(d)),
                attributes: attributes_part(s, pos)->Ok_0.0,
            },
            d + 2 + attributes_part(s, pos)->Ok_0.1,
        ))
    }
}

/// `o` is the lazy form of the class file `c`, read from bytes `s` at
/// `pos`: the same header and pool, nothing loaded, and each deferred run
/// positioned where it starts.
pub open spec fn lazy_form_of(o: ClassFileOpt, c: ClassFileModel, s: Seq<u8>, pos: int) -> bool {
    &&& o.version == c.version
    &&& o.const_pool_size == c.const_pool_size
    &&& o.const_pool.entries() == c.const_pool
    &&& o.access_flags == c.access_flags
    &&& o.this_class == c.this_class
    &&& o.super_class == c.super_class
    &&& o.interfaces_count == c.interfaces_count
    &&& o.interfaces@ == c.interfaces
    &&& o.fields.start() == pos + fields_offset(s, pos) + 2
    &&& o.fields.count() == c.fields_count
    &&& o.fields.cached() is None
    &&& o.methods.start() == pos + methods_offset(s, pos) + 2
    &&& o.methods.count() == c.methods_count
    &&& o.methods.cached() is None
    &&& o.attributes.start() == pos + attributes_offset(s, pos) + 2
    &&& o.attributes.count() == c.attributes_count
    &&& o.attributes.cached() is None
}

fn magic_parser<'a>(i: ParseData<'a>) -> (r: Result<ParseData<'a>, ParseError>)
    ensures
        i.bytes().len() < 4 ==> r == Err::<ParseData<'a>, ParseError>(ParseError::Incomplete),
        i.bytes().len() >= 4 && !has_magic(i.bytes()) ==> r == Err::<ParseData<'a>, ParseError>(ParseError::BadMagic),
        i.bytes().len() >= 4 && has_magic(i.bytes()) ==> (r matches Ok(next) && i.advanced(next, 4)),
{
    let (j, m) = take(i, 4)?;
    let d = m.data();
    if d[0] == 0xCA && d[1] == 0xFE && d[2] == 0xBA && d[3] == 0xBE {
        Ok(j)
    } else {
        Err(ParseError::BadMagic)
    }
}

/// The fixed part before the constant pool, and the pool itself.
fn header_and_pool<'a>(i: ParseData<'a>) -> (r: Result<(ParseData<'a>, (ClassFileVersion, u16, ConstantPool)), ParseError>)
    ensures
        match r {
            Ok((next, (v, n, p))) => {
                &&& i.bytes().len() >= 10 && has_magic(i.bytes())
                &&& pool_part(i.bytes(), i.start()) is Ok
                &&& i.advanced(next, flags_offset(i.bytes(), i.start()))
                &&& v == ClassFileVersion { major: spec_u16(i.bytes().skip(6)), minor: spec_u16(i.bytes().skip(4)) }
                &&& n == spec_u16(i.bytes().skip(8))
                &&& n >= 1
                &&& p.entries() == pool_part(i.bytes(), i.start())->Ok_0.0
            },
            Err(e) => spec_class(i.bytes(), i.start()) == Decoded::<ClassFileModel>::Err(e),
        },
{
    let j = magic_parser(i)?;
    let (k, h) = take(j, 6)?;
    proof {
        lemma_advance_twice(i, j, k, 4, 6);
    }
    let d = h.data();
    let minor = u16_at(d, 0);
    let major = u16_at(d, 2);
    let const_pool_size = u16_at(d, 4);
    if const_pool_size == 0 {
        return Err(ParseError::InvalidConstantPoolCount);
    }
    let (l, entries) = constant_parser(k, const_pool_size - 1)?;
    proof {
        lemma_advance_twice(i, k, l, 10, pool_part(i.bytes(), i.start())->Ok_0.1);
    }
    let const_pool = ConstantPool::new(entries)?;
    Ok((l, (ClassFileVersion { major, minor }, const_pool_size, const_pool)))
}

/// The fixed part after the constant pool: access flags, this class, super
/// class, and the interfaces.
fn class_header<'a>(i: ParseData<'a>) -> (r: Result<(ParseData<'a>, (u16, ConstantPoolIndexRaw, ConstantPoolIndexRaw, u16, Vec<ConstantPoolIndexRaw>)), ParseError>)
    ensures
        i.bytes().len() < 8 ==> r is Err && r->Err_0 == ParseError::Incomplete,
        i.bytes().len() >= 8 ==> match repeat(index_grammar(), i.bytes().skip(8), i.start() + 8, spec_u16(i.bytes().skip(6)) as nat) {
            Ok((ifs, k)) => r matches Ok((next, (f, t, sc, n, v))) && i.advanced(next, 8 + k) && f == spec_u16(i.bytes())
                && t.0 == spec_u16(i.bytes().skip(2)) && sc.0 == spec_u16(i.bytes().skip(4)) && n == spec_u16(i.bytes().skip(6))
                && v@ == ifs,
            Err(e) => r is Err && r->Err_0 == e,
        },
{
    let (j, h) = take(i, 8)?;
    let d = h.data();
    let access_flags = u16_at(d, 0);
    let this_class = ConstantPoolIndexRaw(u16_at(d, 2));
    let super_class = ConstantPoolIndexRaw(u16_at(d, 4));
    let interfaces_count = u16_at(d, 6);
    let (k, interfaces) = count(
        crate::attribute_info::parser::index_parser,
        Ghost(index_grammar()),
        j,
        interfaces_count as usize,
    )?;
    proof {
        let n = repeat(index_grammar(), j.bytes(), j.start(), interfaces_count as nat)->Ok_0.1;
        lemma_advance_twice(i, j, k, 8, n);
    }
    Ok((k, (access_flags, this_class, super_class, interfaces_count, interfaces)))
}

/// Decodes a whole class file, every section of it.
#[verifier::rlimit(100)]
pub fn class_parser<'a>(i: ParseData<'a>) -> (r: Result<(ParseData<'a>, ClassFile), ParseError>)
    ensures
        decodes_view(i, r, spec_class(i.bytes(), i.start())),
{
    let ghost s = i.bytes();
    let ghost pos = i.start();
    let (j, (version, const_pool_size, const_pool)) = header_and_pool(i)?;
    let ghost a = flags_offset(s, pos);
    proof {
        if j.bytes().len() >= 8 {
            assert(j.bytes().skip(2) =~= s.skip(a + 2));
            assert(j.bytes().skip(4) =~= s.skip(a + 4));
            assert(j.bytes().skip(6) =~= s.skip(a + 6));
            assert(j.bytes().skip(8) =~= s.skip(a + 8));
        }
    }
    let (k, (flags, this_class, super_class, interfaces_count, interfaces)) = class_header(j)?;
    let ghost b = fields_offset(s, pos);
    proof {
        lemma_advance_twice(i, j, k, a, b - a);
    }
    let (l, fields_count) = be_u16(k)?;
    proof {
        lemma_advance_twice(i, k, l, b, 2);
    }
    let (m, fields) = count_view(field_parser, Ghost(field_grammar()), l, fields_count as usize)?;
    let ghost c = methods_offset(s, pos);
    proof {
        lemma_advance_twice(i, l, m, b + 2, c - b - 2);
    }
    let (n, methods_count) = be_u16(m)?;
    proof {
        lemma_advance_twice(i, m, n, c, 2);
    }
    let (o, methods) = count_view(method_parser, Ghost(method_grammar()), n, methods_count as usize)?;
    let ghost d = attributes_offset(s, pos);
    proof {
        lemma_advance_twice(i, n, o, c + 2, d - c - 2);
    }
    let (p, attributes_count) = be_u16(o)?;
    proof {
        lemma_advance_twice(i, o, p, d, 2);
    }
    let (q, attributes) = count(attribute_parser, Ghost(attribute_grammar()), p, attributes_count as usize)?;
    proof {
        lemma_advance_twice(i, p, q, d + 2, attributes_part(s, pos)->Ok_0.1);
    }
    Ok((
        q,
        ClassFile {
            version,
            const_pool_size,
            const_pool,
            access_flags: ClassAccessFlags::from_bits_truncate(flags),
            this_class,
            super_class,
            interfaces_count,
            interfaces,
            fields_count,
            fields,
            methods_count,
            methods,
            attributes_count,
            attributes,
        },
    ))
}

/// Decodes the header and constant pool of a class file, and walks past its
/// fields, methods and attributes, keeping where each run starts. It
/// succeeds exactly where `class_parser` does.
pub fn class_parser_opt<'a>(i: ParseData<'a>) -> (r: Result<(ParseData<'a>, ClassFileOpt), ParseError>)
    ensures
        match spec_class(i.bytes(), i.start()) {
            Ok((c, k)) => r matches Ok((next, o)) && i.advanced(next, k) && lazy_form_of(o, c, i.bytes(), i.start()),
            Err(e) => r == Err::<(ParseData<'a>, ClassFileOpt), ParseError>(e),
        },
{
    let ghost s = i.bytes();
    let ghost pos = i.start();
    let (j, (version, const_pool_size, const_pool)) = header_and_pool(i)?;
    let ghost a = flags_offset(s, pos);
    proof {
        if j.bytes().len() >= 8 {
            assert(j.bytes().skip(2) =~= s.skip(a + 2));
            assert(j.bytes().skip(4) =~= s.skip(a + 4));
            assert(j.bytes().skip(6) =~= s.skip(a + 6));
            assert(j.bytes().skip(8) =~= s.skip(a + 8));
        }
    }
    let (k, (flags, this_class, super_class, interfaces_count, interfaces)) = class_header(j)?;
    let ghost b = fields_offset(s, pos);
    proof {
        lemma_advance_twice(i, j, k, a, b - a);
    }
    let (l, fields_count) = be_u16(k)?;
    proof {
        lemma_advance_twice(i, k, l, b, 2);
    }
    let fields_start = l.pos();
    let m = skip_count::<FieldInfoModel, _>(skip_field_parser, Ghost(field_grammar()), l, fields_count as usize)?;
    let ghost c = methods_offset(s, pos);
    proof {
        lemma_advance_twice(i, l, m, b + 2, c - b - 2);
    }
    let (n, methods_count) = be_u16(m)?;
    proof {
        lemma_advance_twice(i, m, n, c, 2);
    }
    let methods_start = n.pos();
    let o = skip_count::<MethodInfoModel, _>(skip_method_parser, Ghost(method_grammar()), n, methods_count as usize)?;
    let ghost d = attributes_offset(s, pos);
    proof {
        lemma_advance_twice(i, n, o, c + 2, d - c - 2);
    }
    let (p, attributes_count) = be_u16(o)?;
    proof {
        lemma_advance_twice(i, o, p, d, 2);
    }
    let attributes_start = p.pos();
    let q = skip_count::<AttributeInfo, _>(skip_attribute_parser, Ghost(attribute_grammar()), p, attributes_count as usize)?;
    proof {
        lemma_advance_twice(i, p, q, d + 2, attributes_part(s, pos)->Ok_0.1);
    }
    Ok((
        q,
        ClassFileOpt {
            version,
            const_pool_size,
            const_pool,
            access_flags: ClassAccessFlags::from_bits_truncate(flags),
            this_class,
            super_class,
            interfaces_count,
            interfaces,
            fields: OptSmallVec::empty(fields_start, fields_count),
            methods: OptSmallVec::empty(methods_start, methods_count),
            attributes: OptSmallVec::empty(attributes_start, attributes_count),
        },
    ))
}

} // verus!
