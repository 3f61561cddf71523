//! The two name-keyed lookup tables behind the declaration registry: the
//! shared type namespace and the global constructor namespace. Both are hash
//! maps of the `hashbrown` crate, keyed by identifier; verified code sees
//! them only through the contracts below, stated over the tables' contents as
//! maps keyed by each name's character sequence. `Ident`'s derived `Eq` and `Hash` compare and
//! hash the name's characters, so key equality in the hash map is equality of
//! those sequences.

use vstd::prelude::*;

use crate::data::{AliasId, DataId};
use crate::syntax::{GenScopeId, Ident, Span};

verus! {

/// Which kind of declaration owns a type-level name.
#[derive(Clone, Copy, Debug, PartialEq, Eq, Structural)]
pub enum TypeItemId {
    Data(DataId),
    Alias(AliasId),
}

/// What the shared type namespace records for a name: the span of the
/// declaration that owns it, which declaration it is, and the
/// generic-parameter scope it was declared with.
#[derive(Clone, Copy, Debug, PartialEq, Eq, Structural)]
pub struct NameEntry {
    pub span: Span,
    pub item: TypeItemId,
    pub gen_scope: GenScopeId,
}

/// What the global constructor namespace records for a name: the span of the
/// constructor that owns it and the data type it belongs to.
#[derive(Clone, Copy, Debug, PartialEq, Eq, Structural)]
pub struct ConsEntry {
    pub span: Span,
    pub data: DataId,
}

/// The shared type namespace, keyed by name.
#[verifier::external_body]
pub struct NameLut {
    inner: hashbrown::HashMap<Ident, NameEntry>,
}

/// The entries of a [`NameLut`], keyed by each name's character sequence.
pub uninterp spec fn name_lut_map(t: NameLut) -> Map<Seq<char>, NameEntry>;

impl NameLut {
    /// Relies on hashbrown::HashMap::new: the new map is empty.
    #[verifier::external_body]
    pub fn new() -> (r: Self)
        ensures
            (name_lut_map(r) == Map::<Seq<char>, NameEntry>::empty()),
    {
        NameLut { inner: hashbrown::HashMap::new() }
    }

    /// Relies on hashbrown::HashMap::get: returns the entry stored under a
    /// key equal to `name`, if there is one.
    #[verifier::external_body]
    pub fn get(&self, name: &Ident) -> (r: Option<NameEntry>)
        ensures
            match r {
                Some(e) => name_lut_map(*self).contains_key(name@) && name_lut_map(*self)[name@]
                    == e,
                None => !name_lut_map(*self).contains_key(name@),
            },
    {
        self.inner.get(name).copied()
    }

    /// Relies on hashbrown::HashMap::insert: stores `entry` under `name`,
    /// replacing any entry stored there before.
    #[verifier::external_body]
    pub fn insert(&mut self, name: Ident, entry: NameEntry)
        ensures
            (name_lut_map(*final(self)) == name_lut_map(*old(self)).insert(name@, entry)),
    {
        self.inner.insert(name, entry);
    }
}

/// The global constructor namespace, keyed by constructor name.
#[verifier::external_body]
pub struct ConsLut {
    inner: hashbrown::HashMap<Ident, ConsEntry>,
}

/// The entries of a [`ConsLut`], keyed by each name's character sequence.
pub uninterp spec fn cons_lut_map(t: ConsLut) -> Map<Seq<char>, ConsEntry>;

impl ConsLut {
    /// Relies on hashbrown::HashMap::new: the new map is empty.
    #[verifier::external_body]
    pub fn new() -> (r: Self)
        ensures
            (cons_lut_map(r) == Map::<Seq<char>, ConsEntry>::empty()),
    {
        ConsLut { inner: hashbrown::HashMap::new() }
    }

    /// Relies on hashbrown::HashMap::get: returns the entry stored under a
    /// key equal to `name`, if there is one.
    #[verifier::external_body]
    pub fn get(&self, name: &Ident) -> (r: Option<ConsEntry>)
        ensures
            match r {
                Some(e) => cons_lut_map(*self).contains_key(name@) && cons_lut_map(*self)[name@]
                    == e,
                None => !cons_lut_map(*self).contains_key(name@),
            },
    {
        self.inner.get(name).copied()
    }

    /// Relies on hashbrown::HashMap::insert: stores `entry` under `name`,
    /// replacing any entry stored there before.
    #[verifier::external_body]
    pub fn insert(&mut self, name: Ident, entry: ConsEntry)
        ensures
            (cons_lut_map(*final(self)) == cons_lut_map(*old(self)).insert(name@, entry)),
    {
        self.inner.insert(name, entry);
    }
}

} // verus!
