//! Field descriptors: a primitive letter, `L<class name>;`, or a run of `[`
//! before one of those.
use vstd::prelude::*;
use vstd::slice::{slice_subrange, slice_to_vec};

verus! {

/// `B`
pub const TAG_BYTE: u8 = 66;
/// `C`
pub const TAG_CHAR: u8 = 67;
/// `D`
pub const TAG_DOUBLE: u8 = 68;
/// `F`
pub const TAG_FLOAT: u8 = 70;
/// `I`
pub const TAG_INT: u8 = 73;
/// `J`
pub const TAG_LONG: u8 = 74;
/// `L`, which opens a class name.
pub const TAG_CLASS: u8 = 76;
/// `S`
pub const TAG_SHORT: u8 = 83;
/// `Z`
pub const TAG_BOOLEAN: u8 = 90;
/// `[`, one array dimension.
pub const TAG_ARRAY: u8 = 91;
/// `;`, which closes a class name.
pub const CLASS_NAME_END: u8 = 59;

#[derive(Debug, Clone, Copy, PartialEq, Eq, Structural)]
pub enum DescriptorTypeError {
    /// There was no input to parse.
    NoInput,
    /// The first byte starts no type.
    InvalidTypeOpener,
    /// `L;`: the class name is empty.
    EmptyClassName,
    /// `L` with no `;` after it.
    NoClassNameEnd,
    /// More `[` in a row than the level counter holds. The level never
    /// exceeds the length of the text, so a `usize` counter always holds it.
    TooManyNestedArrays,
}

/// A type that is not an array.
#[derive(Debug, Clone, PartialEq, Eq)]
pub enum DescriptorTypeBasic {
    /// `B`
    Byte,
    /// `C`
    Char,
    /// `D`
    Double,
    /// `F`
    Float,
    /// `I`
    Int,
    /// `J`
    Long,
    /// `L<class name>;`: the bytes of the class name.
    ClassName(Vec<u8>),
    /// `S`
    Short,
    /// `Z`
    Boolean,
}

/// A field type: a basic type, or an array of `level` dimensions over one.
/// A run of `[` becomes one level count rather than nested values.
#[derive(Debug, Clone, PartialEq, Eq)]
pub enum DescriptorType {
    Basic(DescriptorTypeBasic),
    Array { level: usize, component: DescriptorTypeBasic },
}

/// What a `DescriptorTypeBasic` denotes.
pub enum BasicTypeModel {
    Byte,
    Char,
    Double,
    Float,
    Int,
    Long,
    ClassName(Seq<u8>),
    Short,
    Boolean,
}

/// What a `DescriptorType` denotes.
pub enum TypeModel {
    Basic(BasicTypeModel),
    Array { level: nat, component: BasicTypeModel },
}

impl View for DescriptorTypeBasic {
    type V = BasicTypeModel;

    open spec fn view(&self) -> BasicTypeModel {
        match self {
            DescriptorTypeBasic::Byte => BasicTypeModel::Byte,
            DescriptorTypeBasic::Char => BasicTypeModel::Char,
            DescriptorTypeBasic::Double => BasicTypeModel::Double,
            DescriptorTypeBasic::Float => BasicTypeModel::Float,
            DescriptorTypeBasic::Int => BasicTypeModel::Int,
            DescriptorTypeBasic::Long => BasicTypeModel::Long,
            DescriptorTypeBasic::ClassName(n) => BasicTypeModel::ClassName(n@),
            DescriptorTypeBasic::Short => BasicTypeModel::Short,
            DescriptorTypeBasic::Boolean => BasicTypeModel::Boolean,
        }
    }
}

impl View for DescriptorType {
    type V = TypeModel;

    open spec fn view(&self) -> TypeModel {
        match self {
            DescriptorType::Basic(b) => TypeModel::Basic(b@),
            DescriptorType::Array { level, component } => TypeModel::Array {
                level: *level as nat,
                component: component@,
            },
        }
    }
}

impl From<DescriptorTypeBasic> for DescriptorType {
    fn from(basic: DescriptorTypeBasic) -> (r: DescriptorType) {
        DescriptorType::Basic(basic)
    }
}

impl vstd::std_specs::convert::FromSpecImpl<DescriptorTypeBasic> for DescriptorType {
    open spec fn obeys_from_spec() -> bool {
        true
    }

    open spec fn from_spec(basic: DescriptorTypeBasic) -> DescriptorType {
        DescriptorType::Basic(basic)
    }
}

/// The bytes that may start a field type.
pub open spec fn spec_is_beginning_char(c: u8) -> bool {
    c == TAG_BYTE || c == TAG_CHAR || c == TAG_DOUBLE || c == TAG_FLOAT || c == TAG_INT
        || c == TAG_LONG || c == TAG_CLASS || c == TAG_SHORT || c == TAG_BOOLEAN || c == TAG_ARRAY
}

/// The index of the first `;` at or after `i`.
pub open spec fn first_semicolon(t: Seq<u8>, i: int) -> Option<int>
    decreases t.len() - i,
{
    if i < 0 || i >= t.len() {
        None
    } else if t[i] == CLASS_NAME_END {
        Some(i)
    } else {
        first_semicolon(t, i + 1)
    }
}

/// The number of `[` in a row from `i` on.
pub open spec fn brackets_from(t: Seq<u8>, i: int) -> int
    decreases t.len() - i,
{
    if 0 <= i < t.len() && t[i] == TAG_ARRAY {
        1 + brackets_from(t, i + 1)
    } else {
        0
    }
}

/// A type that is not an array at the start of `t`, and the number of bytes
/// it spans.
pub open spec fn spec_basic_type(t: Seq<u8>) -> Result<(BasicTypeModel, int), DescriptorTypeError> {
    if t.len() == 0 {
        Err(DescriptorTypeError::NoInput)
    } else {
        let c = t[0];
        if c == TAG_BYTE {
            Ok((BasicTypeModel::Byte, 1))
        } else if c == TAG_CHAR {
            Ok((BasicTypeModel::Char, 1))
        } else if c == TAG_DOUBLE {
            Ok((BasicTypeModel::Double, 1))
        } else if c == TAG_FLOAT {
            Ok((BasicTypeModel::Float, 1))
        } else if c == TAG_INT {
            Ok((BasicTypeModel::Int, 1))
        } else if c == TAG_LONG {
            Ok((BasicTypeModel::Long, 1))
        } else if c == TAG_SHORT {
            Ok((BasicTypeModel::Short, 1))
        } else if c == TAG_BOOLEAN {
            Ok((BasicTypeModel::Boolean, 1))
        } else if c == TAG_CLASS {
            match first_semicolon(t, 1) {
                None => Err(DescriptorTypeError::NoClassNameEnd),
                Some(j) => if j == 1 {
                    Err(DescriptorTypeError::EmptyClassName)
                } else {
                    Ok((BasicTypeModel::ClassName(t.subrange(1, j)), j + 1))
                },
            }
        } else {
            Err(DescriptorTypeError::InvalidTypeOpener)
        }
    }
}

/// The field type at the start of `t`, and the number of bytes it spans.
pub open spec fn spec_type(t: Seq<u8>) -> Result<(TypeModel, int), DescriptorTypeError> {
    if t.len() > 0 && t[0] == TAG_ARRAY {
        let n = brackets_from(t, 0);
        match spec_basic_type(t.skip(n)) {
            Ok((c, k)) => Ok((TypeModel::Array { level: n as nat, component: c }, n + k)),
            Err(e) => Err(e),
        }
    } else {
        match spec_basic_type(t) {
            Ok((b, k)) => Ok((TypeModel::Basic(b), k)),
            Err(e) => Err(e),
        }
    }
}

proof fn lemma_first_semicolon(t: Seq<u8>, i: int)
    ensures
        first_semicolon(t, i) matches Some(j) ==> i <= j < t.len(),
    decreases t.len() - i,
{
    if 0 <= i < t.len() && t[i] != CLASS_NAME_END {
        lemma_first_semicolon(t, i + 1);
    }
}

proof fn lemma_brackets(t: Seq<u8>, i: int)
    requires
        0 <= i <= t.len(),
    ensures
        0 <= brackets_from(t, i) <= t.len() - i,
    decreases t.len() - i,
{
    if i < t.len() && t[i] == TAG_ARRAY {
        lemma_brackets(t, i + 1);
    }
}

/// A field type spans at least one byte and no more than there are.
pub proof fn lemma_type_span(t: Seq<u8>)
    ensures
        spec_type(t) matches Ok((_, k)) ==> 1 <= k <= t.len(),
{
    lemma_first_semicolon(t, 1);
    if t.len() > 0 && t[0] == TAG_ARRAY {
        lemma_brackets(t, 0);
        let n = brackets_from(t, 0);
        lemma_first_semicolon(t.skip(n), 1);
    }
}

/// `r` is what parsing `t` as a field type gives: the type and the bytes
/// after it, which are fewer than `t`'s, or the error.
pub open spec fn type_parsed(
    t: Seq<u8>,
    r: Result<(DescriptorType, Seq<u8>), DescriptorTypeError>,
) -> bool {
    match spec_type(t) {
        Ok((v, k)) => r matches Ok((w, rest)) && w@ == v && 1 <= k <= t.len() && rest == t.skip(k),
        Err(e) => r == Err::<(DescriptorType, Seq<u8>), DescriptorTypeError>(e),
    }
}

/// The basic type at the start of `text`, and how many bytes it spans.
fn parse_basic(text: &[u8]) -> (r: Result<(DescriptorTypeBasic, usize), DescriptorTypeError>)
    ensures
        match spec_basic_type(text@) {
            Ok((v, k)) => r matches Ok((w, n)) && w@ == v && n == k && 1 <= k <= text@.len(),
            Err(e) => r == Err::<(DescriptorTypeBasic, usize), DescriptorTypeError>(e),
        },
{
    if text.len() == 0 {
        return Err(DescriptorTypeError::NoInput);
    }
    let c = text[0];
    let value = if c == TAG_BYTE {
        DescriptorTypeBasic::Byte
    } else if c == TAG_CHAR {
        DescriptorTypeBasic::Char
    } else if c == TAG_DOUBLE {
        DescriptorTypeBasic::Double
    } else if c == TAG_FLOAT {
        DescriptorTypeBasic::Float
    } else if c == TAG_INT {
        DescriptorTypeBasic::Int
    } else if c == TAG_LONG {
        DescriptorTypeBasic::Long
    } else if c == TAG_SHORT {
        DescriptorTypeBasic::Short
    } else if c == TAG_BOOLEAN {
        DescriptorTypeBasic::Boolean
    } else if c == TAG_CLASS {
        let mut i: usize = 1;
        while i < text.len() && text[i] != CLASS_NAME_END
            invariant
                1 <= i <= text@.len(),
                first_semicolon(text@, 1) == first_semicolon(text@, i as int),
            decreases text@.len() - i,
        {
            i += 1;
        }
        if i == text.len() {
            return Err(DescriptorTypeError::NoClassNameEnd);
        }
        if i == 1 {
            return Err(DescriptorTypeError::EmptyClassName);
        }
        let name = slice_to_vec(slice_subrange(text, 1, i));
        return Ok((DescriptorTypeBasic::ClassName(name), i + 1));
    } else {
        return Err(DescriptorTypeError::InvalidTypeOpener);
    };
    Ok((value, 1))
}

impl DescriptorType {
    pub(crate) fn is_beginning_char(c: u8) -> (r: bool)
        ensures
            r == spec_is_beginning_char(c),
    {
        c == TAG_BYTE || c == TAG_CHAR || c == TAG_DOUBLE || c == TAG_FLOAT || c == TAG_INT || c == TAG_LONG || c == TAG_CLASS
            || c == TAG_SHORT || c == TAG_BOOLEAN || c == TAG_ARRAY
    }

    /// The same type, owning all of its data.
    pub fn to_owned(self) -> (r: DescriptorType)
        ensures
            r@ == self@,
    {
        match self {
            DescriptorType::Basic(x) => DescriptorType::Basic(x.to_owned()),
            DescriptorType::Array { level, component } => DescriptorType::Array {
                level,
                component: component.to_owned(),
            },
        }
    }

    /// The field type at the start of `text`, and the bytes after it.
    pub fn parse<'a>(text: &'a [u8]) -> (r: Result<(DescriptorType, &'a [u8]), DescriptorTypeError>)
        ensures
            type_parsed(
                text@,
                match r {
                    Ok((v, rest)) => Ok((v, rest@)),
                    Err(e) => Err(e),
                },
            ),
    {
        if text.len() > 0 && text[0] == TAG_ARRAY {
            let mut level: usize = 1;
            let mut i: usize = 1;
            while i < text.len() && text[i] == TAG_ARRAY
                invariant
                    1 <= i <= text@.len(),
                    level == i,
                    brackets_from(text@, 0) == i + brackets_from(text@, i as int),
                decreases text@.len() - i,
            {
                level = match level.checked_add(1) {
                    Some(l) => l,
                    None => return Err(DescriptorTypeError::TooManyNestedArrays),
                };
                i += 1;
            }
            let rest = slice_subrange(text, i, text.len());
            assert(rest@ == text@.skip(i as int));
            let (component, k) = match parse_basic(rest) {
                Ok(v) => v,
                Err(e) => return Err(e),
            };
            let after = slice_subrange(text, i + k, text.len());
            assert(after@ =~= text@.skip(i + k));
            Ok((DescriptorType::Array { level, component }, after))
        } else {
            let (value, k) = match parse_basic(text) {
                Ok(v) => v,
                Err(e) => return Err(e),
            };
            let after = slice_subrange(text, k, text.len());
            Ok((DescriptorType::Basic(value), after))
        }
    }
}

impl DescriptorTypeBasic {
    /// The same type, owning all of its data.
    pub fn to_owned(self) -> (r: DescriptorTypeBasic)
        ensures
            r@ == self@,
    {
        self
    }
}

} // verus!
