//! Indices into the constant pool, in the file's 1-based form and in the
//! 0-based form that addresses the stored entries, and the pool itself.
use crate::constant_info::{ConstantInfo, ConstantKind, Utf8Constant};
use crate::parser::ParseError;
use vstd::prelude::*;

verus! {

/// A constant-pool index as the file stores it: 1-based, with 0 meaning
/// "no reference".
#[derive(Debug, Clone, Copy, PartialEq, Eq, Hash, Structural)]
pub struct ConstantPoolIndexRaw(pub u16);

impl ConstantPoolIndexRaw {
    pub fn new(i: u16) -> (r: ConstantPoolIndexRaw)
        ensures
            r.0 == i,
    {
        ConstantPoolIndexRaw(i)
    }

    pub fn is_zero(&self) -> (r: bool)
        ensures
            r == (self.0 == 0),
    {
        self.0 == 0
    }
}

/// A constant-pool index that addresses the stored entries: the raw index
/// less one.
#[derive(Debug, Clone, Copy, PartialEq, Eq, Hash, Structural)]
pub struct ConstantPoolIndex(pub u16);

/// A raw index of 0 has no corrected form.
#[derive(Debug, Clone, Copy, PartialEq, Eq, Structural)]
pub struct InvalidConstantPoolIndex;

/// The corrected form of a raw index, where it has one.
pub open spec fn spec_corrected(raw: ConstantPoolIndexRaw) -> Option<ConstantPoolIndex> {
    if raw.0 == 0 {
        None
    } else {
        Some(ConstantPoolIndex((raw.0 - 1) as u16))
    }
}

impl ConstantPoolIndex {
    pub fn new(i: u16) -> (r: ConstantPoolIndex)
        ensures
            r.0 == i,
    {
        ConstantPoolIndex(i)
    }

    /// The corrected form of `raw`: fails exactly when `raw` is 0.
    pub fn try_from(raw: ConstantPoolIndexRaw) -> (r: Result<ConstantPoolIndex, InvalidConstantPoolIndex>)
        ensures
            r is Err <==> raw.0 == 0,
            r is Ok ==> r->Ok_0.0 == raw.0 - 1,
    {
        match raw.0.checked_sub(1) {
            Some(i) => Ok(ConstantPoolIndex(i)),
            None => Err(InvalidConstantPoolIndex),
        }
    }

    /// The raw form of this index: one more.
    pub fn to_raw(self) -> (r: ConstantPoolIndexRaw)
        requires
            self.0 < u16::MAX,
        ensures
            r.0 == self.0 + 1,
    {
        ConstantPoolIndexRaw(self.0 + 1)
    }
}

/// Correcting a raw index and raising it again gives it back, and only 0 has
/// no corrected form.
pub proof fn lemma_index_round_trip(raw: ConstantPoolIndexRaw)
    ensures
        spec_corrected(raw) is None <==> raw.0 == 0,
        raw.0 > 0 ==> spec_corrected(raw)->Some_0.0 == raw.0 - 1,
        raw.0 > 0 ==> spec_corrected(raw)->Some_0.0 + 1 == raw.0,
{
}

/// The entry that a raw index addresses, if it addresses one.
pub open spec fn spec_get(entries: Seq<ConstantInfo>, raw: ConstantPoolIndexRaw) -> Option<ConstantInfo> {
    if raw.0 == 0 || raw.0 - 1 >= entries.len() {
        None
    } else {
        Some(entries[raw.0 - 1])
    }
}

/// The entry that a raw index addresses, where it is of the given kind.
pub open spec fn spec_get_t(
    entries: Seq<ConstantInfo>,
    raw: ConstantPoolIndexRaw,
    kind: ConstantKind,
) -> Option<ConstantInfo> {
    match spec_get(entries, raw) {
        Some(c) => if c.spec_kind() == Some(kind) {
            Some(c)
        } else {
            None
        },
        None => None,
    }
}

/// A typed lookup never resolves an `Unusable` slot, whatever kind it asks
/// for.
pub proof fn lemma_unusable_never_typed(entries: Seq<ConstantInfo>, raw: ConstantPoolIndexRaw, kind: ConstantKind)
    requires
        spec_get(entries, raw) == Some(ConstantInfo::Unusable),
    ensures
        spec_get_t(entries, raw, kind) is None,
{
}

/// The constant pool: its entries in file order, slot 1 of the file first,
/// with an `Unusable` entry after each `Long` and `Double`.
#[derive(Debug)]
pub struct ConstantPool {
    pool: Vec<ConstantInfo>,
}

impl ConstantPool {
    #[verifier::type_invariant]
    spec fn bounded(&self) -> bool {
        self.pool@.len() <= u16::MAX
    }

    pub closed spec fn entries(&self) -> Seq<ConstantInfo> {
        self.pool@
    }

    /// A pool of these entries; a pool holds at most 65535 of them.
    pub fn new(pool: Vec<ConstantInfo>) -> (r: Result<ConstantPool, ParseError>)
        ensures
            pool@.len() <= u16::MAX ==> (r matches Ok(p) && p.entries() == pool@),
            pool@.len() > u16::MAX ==> r == Err::<ConstantPool, ParseError>(
                ParseError::ConstantPoolTooLarge,
            ),
    {
        if pool.len() > 65535 {
            return Err(ParseError::ConstantPoolTooLarge);
        }
        Ok(ConstantPool { pool })
    }

    pub fn len(&self) -> (r: u16)
        ensures
            r == self.entries().len(),
    {
        proof {
            use_type_invariant(self);
        }
        self.pool.len() as u16
    }

    pub fn is_empty(&self) -> (r: bool)
        ensures
            r == (self.entries().len() == 0),
    {
        self.len() == 0
    }

    /// The entry at a raw index; `None` for 0 and past the end.
    pub fn get(&self, i: ConstantPoolIndexRaw) -> (r: Option<&ConstantInfo>)
        ensures
            match spec_get(self.entries(), i) {
                Some(c) => r == Some(&c),
                None => r is None,
            },
    {
        match ConstantPoolIndex::try_from(i) {
            Ok(c) => {
                if (c.0 as usize) < self.pool.len() {
                    Some(&self.pool[c.0 as usize])
                } else {
                    None
                }
            },
            Err(_) => None,
        }
    }

    /// The entry at a raw index where it is of the given kind; `None`
    /// otherwise. An `Unusable` slot is of no kind, so it never comes back.
    pub fn get_t(&self, i: ConstantPoolIndexRaw, kind: ConstantKind) -> (r: Option<&ConstantInfo>)
        ensures
            match spec_get_t(self.entries(), i, kind) {
                Some(c) => r == Some(&c),
                None => r is None,
            },
            r matches Some(c) ==> !(c is Unusable),
    {
        match self.get(i) {
            Some(c) => {
                if c.is_kind(kind) {
                    Some(c)
                } else {
                    None
                }
            },
            None => None,
        }
    }

    /// The `Utf8` constant at a raw index, where there is one.
    pub fn get_utf8(&self, i: ConstantPoolIndexRaw) -> (r: Option<&Utf8Constant>)
        ensures
            match spec_get(self.entries(), i) {
                Some(ConstantInfo::Utf8(u)) => r == Some(&u),
                _ => r is None,
            },
    {
        match self.get(i) {
            Some(c) => match c.as_utf8() {
                Ok(u) => Some(u),
                Err(_) => None,
            },
            None => None,
        }
    }

    /// An iterator over all entries, in order.
    pub fn iter(&self) -> (r: std::slice::Iter<'_, ConstantInfo>)
        ensures
            vstd::std_specs::slice::into_iter_elts(r) == self.entries(),
    {
        proof {
            broadcast use vstd::std_specs::slice::axiom_spec_slice_iter;
        }
        let r = self.pool.as_slice().iter();
        assert(vstd::std_specs::iter::IteratorSpec::remaining(&r).unref() =~= self.entries());
        r
    }

    /// All entries, in order.
    pub fn as_slice(&self) -> (r: &[ConstantInfo])
        ensures
            r@ == self.entries(),
    {
        self.pool.as_slice()
    }
}

impl Default for ConstantPool {
    fn default() -> (r: ConstantPool)
        ensures
            r.entries().len() == 0,
    {
        ConstantPool { pool: Vec::new() }
    }
}

} // verus!
