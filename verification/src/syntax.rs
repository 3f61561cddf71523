//! The pieces of the surface syntax that the analysis core consumes: source
//! spans, identifiers, attributes, literals, and the opaque handles issued by
//! collaborating passes (generic scopes, types, definitions, classes,
//! effects).

use vstd::prelude::*;

verus! {

/// A region of source text, carried through declarations and diagnostics.
#[derive(Clone, Copy, Debug, PartialEq, Eq, Structural)]
pub struct Span {
    pub start: u64,
    pub end: u64,
}

impl Span {
    pub fn new(start: u64, end: u64) -> (r: Self)
        ensures
            r == (Span { start, end }),
    {
        Span { start, end }
    }
}

/// An identifier: a name appearing in source text. Two identifiers are the
/// same name exactly when their character sequences are equal.
#[derive(Clone, Debug, PartialEq, Eq, Hash)]
pub struct Ident {
    name: String,
}

impl View for Ident {
    type V = Seq<char>;

    closed spec fn view(&self) -> Seq<char> {
        self.name@
    }
}

impl Ident {
    pub fn new(name: String) -> (r: Self)
        ensures
            r@ == name@,
    {
        Ident { name }
    }

    /// Whether two identifiers are the same name.
    pub fn same_name(&self, other: &Ident) -> (r: bool)
        ensures
            r == (self@ == other@),
    {
        self.name.eq(&other.name)
    }

    /// A copy of this identifier, naming the same name.
    pub fn duplicate(&self) -> (r: Ident)
        ensures
            r@ == self@,
    {
        Ident { name: self.name.clone() }
    }
}

/// A value of the surface syntax paired with the span it was written at.
pub struct SrcNode<T> {
    pub item: T,
    pub span: Span,
}

impl<T> SrcNode<T> {
    pub fn new(item: T, span: Span) -> (r: Self)
        ensures
            r == (SrcNode { item, span }),
    {
        SrcNode { item, span }
    }
}

/// A literal value as written in source.
#[derive(Clone, Debug, PartialEq, Eq)]
pub enum Literal {
    Nat(u64),
    Int(i64),
    Bool(bool),
    Char(char),
    Str(Ident),
}

/// An attribute attached to a declaration: a name and, optionally, a list of
/// argument names.
pub struct Attr {
    pub name: Ident,
    pub args: Option<Vec<Ident>>,
}

/// Handle identifying the set of type/effect parameters a declaration is
/// polymorphic over.
#[derive(Clone, Copy, Debug, PartialEq, Eq, Structural)]
pub struct GenScopeId(pub usize);

/// Handle of a resolved type, issued by the type arena.
#[derive(Clone, Copy, Debug, PartialEq, Eq, Structural)]
pub struct TyId(pub usize);

/// An unresolved type variable, issued by the inference engine.
#[derive(Clone, Copy, Debug, PartialEq, Eq, Structural)]
pub struct TyVar(pub usize);

/// Handle of a top-level definition.
#[derive(Clone, Copy, Debug, PartialEq, Eq, Structural)]
pub struct DefId(pub usize);

/// An unresolved class variable, issued by the inference engine.
#[derive(Clone, Copy, Debug, PartialEq, Eq, Structural)]
pub struct ClassVar(pub usize);

/// Handle of a resolved type class.
#[derive(Clone, Copy, Debug, PartialEq, Eq, Structural)]
pub struct ClassId(pub usize);

/// An unresolved effect variable, issued by the inference engine.
#[derive(Clone, Copy, Debug, PartialEq, Eq, Structural)]
pub struct EffectVar(pub usize);

/// Handle of a resolved effect.
#[derive(Clone, Copy, Debug, PartialEq, Eq, Structural)]
pub struct EffectId(pub usize);

/// Concrete codegen type handle, used by the lowered phase.
#[derive(Clone, Copy, Debug, PartialEq, Eq, Structural)]
pub struct ConTyId(pub usize);

/// Concrete data-type handle, used by the lowered phase.
#[derive(Clone, Copy, Debug, PartialEq, Eq, Structural)]
pub struct ConDataId(pub usize);

/// Concrete procedure handle, used by the lowered phase.
#[derive(Clone, Copy, Debug, PartialEq, Eq, Structural)]
pub struct ConProcId(pub usize);

/// Concrete effect handle, used by the lowered phase.
#[derive(Clone, Copy, Debug, PartialEq, Eq, Structural)]
pub struct ConEffectId(pub usize);

} // verus!
