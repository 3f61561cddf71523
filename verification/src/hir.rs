//! The phase-polymorphic expression/pattern/binding tree: one grammar reused
//! at the inference, checked and lowered stages, each stage instantiating the
//! five resolution slots of [`Meta`] with its own representations. Also the
//! two traversals the tree offers: binding-set extraction, and the
//! free-variable (required-locals) analysis that closure conversion depends
//! on.

use vstd::prelude::*;

use crate::syntax::{
    ClassId, ClassVar, ConDataId, ConEffectId, ConProcId, ConTyId, DefId, EffectId, EffectVar,
    Ident, Literal, Span, SrcNode, TyId, TyVar,
};
use crate::data::DataId;

verus! {

/// The five resolution slots every compilation phase must instantiate: how
/// types, data-type references, class resolution, global references and
/// effect references are annotated at that phase.
pub trait Meta {
    type Ty;

    type Data;

    type Class;

    type Global;

    type Effect;
}

/// Inference-phase node metadata: the node's span and its unresolved type.
#[derive(Clone, Copy, Debug, PartialEq, Eq, Structural)]
pub struct InferMeta {
    pub span: Span,
    pub ty: TyVar,
}

impl Meta for InferMeta {
    type Ty = TyVar;

    type Data = SrcNode<DataId>;

    type Class = ClassVar;

    type Global = (DefId, Vec<InferMeta>);

    type Effect = EffectVar;
}

/// Checked-phase node metadata: the node's span and its resolved type.
#[derive(Clone, Copy, Debug, PartialEq, Eq, Structural)]
pub struct TyMeta {
    pub span: Span,
    pub ty: TyId,
}

impl Meta for TyMeta {
    type Ty = TyId;

    type Data = SrcNode<DataId>;

    // Class resolution may be absent for diagnostic placeholders.
    type Class = Option<(ClassId, Vec<TyId>)>;

    type Global = (DefId, Vec<TyMeta>);

    type Effect = EffectId;
}

/// Lowered-phase node metadata: the node's concrete codegen type.
#[derive(Clone, Copy, Debug, PartialEq, Eq, Structural)]
pub struct ConMeta {
    pub ty: ConTyId,
}

/// Classes are fully erased by the lowered phase: this slot filler has no
/// public constructor, so no lowered node carries a class resolution.
pub struct NoClass {
    _erased: (),
}

impl Meta for ConMeta {
    type Ty = ConTyId;

    type Data = ConDataId;

    type Class = NoClass;

    type Global = ConProcId;

    type Effect = ConEffectId;
}

/// A tree node: the item boxed, with the phase metadata attached to it.
pub struct Node<T, M> {
    pub item: Box<T>,
    pub meta: M,
}

impl<T, M> Node<T, M> {
    pub fn new(item: T, meta: M) -> (r: Self)
        ensures
            r.item == item,
            r.meta == meta,
    {
        Node { item: Box::new(item), meta }
    }
}

pub type InferNode<T> = Node<T, InferMeta>;

pub type TyNode<T> = Node<T, TyMeta>;

pub type ConNode<T> = Node<T, ConMeta>;

/// A pattern, generic over the phase.
pub enum Pat<M: Meta> {
    /// No-op error placeholder.
    Error,
    Wildcard,
    Literal(Literal),
    /// A single-binding wrapper.
    Single(Node<Binding<M>, M>),
    /// Matches a numeric scrutinee that is at least the constant, binding the
    /// remainder.
    Add(Node<Binding<M>, M>, SrcNode<u64>),
    Tuple(Vec<Node<Binding<M>, M>>),
    /// Field-name-to-binding pairs; keys unique (see
    /// [`record_fields_unique`]), kept in declaration order for deterministic
    /// diagnostics.
    Record(Vec<(Ident, Node<Binding<M>, M>)>),
    ListExact(Vec<Node<Binding<M>, M>>),
    /// A prefix of element patterns and an optional tail binding capturing
    /// the remaining suffix; with no tail binding, excess elements are
    /// matched and discarded.
    ListFront(Vec<Node<Binding<M>, M>>, Option<Node<Binding<M>, M>>),
    /// Constructor deconstruction: the owning data-type reference, the
    /// constructor name, and the binding for the constructor's payload.
    Decons(M::Data, Ident, Node<Binding<M>, M>),
}

/// A binder: destructures a value with its pattern and may simultaneously
/// bind the whole value under a name (an as-pattern).
pub struct Binding<M: Meta> {
    pub pat: SrcNode<Pat<M>>,
    pub name: Option<SrcNode<Ident>>,
}

pub type InferBinding = InferNode<Binding<InferMeta>>;

pub type TyBinding = TyNode<Binding<TyMeta>>;

pub type ConBinding = ConNode<Binding<ConMeta>>;

impl<M: Meta> Binding<M> {
    /// A binding that only destructures: no capture name.
    pub fn from_pat(pat: SrcNode<Pat<M>>) -> (r: Self)
        ensures
            r.pat == pat,
            r.name is None,
    {
        Binding { pat, name: None }
    }

    /// A binding that only captures `name`, matching anything.
    pub fn wildcard(name: SrcNode<Ident>) -> (r: Self)
        ensures
            r.pat.item is Wildcard,
            r.pat.span == name.span,
            r.name == Some(name),
    {
        let span = name.span;
        Binding { pat: SrcNode { item: Pat::Wildcard, span }, name: Some(name) }
    }

    /// A binding that matches the unit (empty tuple) value.
    pub fn unit(span: Span) -> (r: Self)
        ensures
            r.pat.span == span,
            r.name is None,
            r.pat.item matches Pat::Tuple(items) && items@.len() == 0,
    {
        Binding { pat: SrcNode { item: Pat::Tuple(Vec::new()), span }, name: None }
    }
}

/// The views of a sequence of identifiers, in order.
pub open spec fn ident_views(s: Seq<Ident>) -> Seq<Seq<char>> {
    s.map_values(|x: Ident| x@)
}

/// The invariant the parser maintains for the fields of a record pattern:
/// field names are pairwise distinct. Field order is insignificant but kept
/// for deterministic diagnostics.
pub open spec fn record_fields_unique<M: Meta>(fields: Seq<(Ident, Node<Binding<M>, M>)>) -> bool {
    forall|i: int, j: int| 0 <= i < j < fields.len() ==> fields[i].0@ != fields[j].0@
}

/// The (name, name span, node metadata) triple of every capture reachable in
/// a binding, in visit order: the binding's own capture first, then the
/// captures of its pattern, depth-first and left-to-right.
pub open spec fn binding_entries<M: Meta>(b: Node<Binding<M>, M>) -> Seq<(Seq<char>, Span, M)>
    decreases b,
{
    (match b.item.name {
        Some(n) => seq![(n.item@, n.span, b.meta)],
        None => Seq::empty(),
    }) + pat_entries(b.item.pat.item)
}

/// The capture entries of a pattern, depth-first and left-to-right.
pub open spec fn pat_entries<M: Meta>(p: Pat<M>) -> Seq<(Seq<char>, Span, M)>
    decreases p,
{
    match p {
        Pat::Error => Seq::empty(),
        Pat::Wildcard => Seq::empty(),
        Pat::Literal(_) => Seq::empty(),
        Pat::Single(inner) => binding_entries(inner),
        Pat::Add(lhs, _) => binding_entries(lhs),
        Pat::Tuple(items) => entries_of_list(items@),
        Pat::Record(fields) => entries_of_fields(fields@),
        Pat::ListExact(items) => entries_of_list(items@),
        Pat::ListFront(items, tail) => entries_of_list(items@) + (match tail {
            Some(t) => binding_entries(t),
            None => Seq::empty(),
        }),
        Pat::Decons(_, _, inner) => binding_entries(inner),
    }
}

/// The capture entries of a sequence of bindings, in order.
pub open spec fn entries_of_list<M: Meta>(items: Seq<Node<Binding<M>, M>>) -> Seq<
    (Seq<char>, Span, M),
>
    decreases items,
{
    if items.len() == 0 {
        Seq::empty()
    } else {
        entries_of_list(items.drop_last()) + binding_entries(items.last())
    }
}

/// The capture entries of a sequence of record fields, in order.
pub open spec fn entries_of_fields<M: Meta>(fields: Seq<(Ident, Node<Binding<M>, M>)>) -> Seq<
    (Seq<char>, Span, M),
>
    decreases fields,
{
    if fields.len() == 0 {
        Seq::empty()
    } else {
        entries_of_fields(fields.drop_last()) + binding_entries(fields.last().1)
    }
}

/// The captured names of a sequence of entries, in order.
pub open spec fn entry_names<M: Meta>(es: Seq<(Seq<char>, Span, M)>) -> Seq<Seq<char>> {
    es.map_values(|e: (Seq<char>, Span, M)| e.0)
}

/// The views of collected (name, metadata) pairs, in order.
pub open spec fn pair_views<M: Meta>(s: Seq<(SrcNode<Ident>, M)>) -> Seq<(Seq<char>, Span, M)> {
    s.map_values(|p: (SrcNode<Ident>, M)| (p.0.item@, p.0.span, p.1))
}

/// Appends to `out` the (name, owning node metadata) pair of every capture
/// reachable in `b`, in visit order. Duplicate names within one pattern are
/// not detected.
#[verifier::loop_isolation(false)]
pub fn visit_bindings<M: Meta + Copy>(b: &Node<Binding<M>, M>, out: &mut Vec<(SrcNode<Ident>, M)>)
    ensures
        (pair_views(final(out)@) == pair_views(old(out)@) + binding_entries(*b)),
    decreases *b,
{
    match &b.item.name {
        Some(n) => {
            let pair = (SrcNode { item: n.item.duplicate(), span: n.span }, b.meta);
            out.push(pair);
            proof {
                assert(pair_views(out@) =~= pair_views(old(out)@) + seq![
                    (n.item@, n.span, b.meta),
                ]);
            }
        },
        None => {},
    }
    let ghost mid = pair_views(out@);
    match &b.item.pat.item {
        Pat::Error => {},
        Pat::Wildcard => {},
        Pat::Literal(_) => {},
        Pat::Single(inner) => {
            visit_bindings(inner, out);
        },
        Pat::Add(lhs, _) => {
            visit_bindings(lhs, out);
        },
        Pat::Tuple(items) => {
            visit_binding_list(items, out);
        },
        Pat::Record(fields) => {
            let mut j: usize = 0;
            while j < fields.len()
                invariant
                    j <= fields@.len(),
                    (pair_views(out@) == mid + entries_of_fields(fields@.take(j as int))),
                decreases fields@.len() - j,
            {
                visit_bindings(&fields[j].1, out);
                proof {
                    assert(fields@.take(j as int + 1).drop_last() =~= fields@.take(j as int));
                    assert(pair_views(out@) =~= mid + entries_of_fields(
                        fields@.take(j as int + 1),
                    ));
                }
                j += 1;
            }
            proof {
                assert(fields@.take(fields@.len() as int) =~= fields@);
            }
        },
        Pat::ListExact(items) => {
            visit_binding_list(items, out);
        },
        Pat::ListFront(items, tail) => {
            visit_binding_list(items, out);
            match tail {
                Some(t) => {
                    visit_bindings(t, out);
                },
                None => {},
            }
            proof {
                assert(pair_views(out@) =~= mid + pat_entries(b.item.pat.item));
            }
        },
        Pat::Decons(_, _, inner) => {
            visit_bindings(inner, out);
        },
    }
    proof {
        assert(pair_views(out@) =~= pair_views(old(out)@) + binding_entries(*b));
    }
}

/// Appends to `out` the capture pairs of each binding in `items`, in order.
#[verifier::loop_isolation(false)]
fn visit_binding_list<M: Meta + Copy>(items: &Vec<Node<Binding<M>, M>>, out: &mut Vec<
    (SrcNode<Ident>, M),
>)
    ensures
        (pair_views(final(out)@) == pair_views(old(out)@) + entries_of_list(items@)),
    decreases items@,
{
    let mut j: usize = 0;
    while j < items.len()
        invariant
            j <= items@.len(),
            (pair_views(out@) == pair_views(old(out)@) + entries_of_list(items@.take(j as int))),
        decreases items@.len() - j,
    {
        visit_bindings(&items[j], out);
        proof {
            assert(items@.take(j as int + 1).drop_last() =~= items@.take(j as int));
            assert(pair_views(out@) =~= pair_views(old(out)@) + entries_of_list(
                items@.take(j as int + 1),
            ));
        }
        j += 1;
    }
    proof {
        assert(items@.take(items@.len() as int) =~= items@);
    }
}

/// A fixed-set primitive operation.
#[derive(Clone, Copy, Debug, PartialEq, Eq, Structural)]
pub enum Intrinsic {
    TypeName,
    NegNat,
    NegInt,
    NegReal,
    EqChar,
    EqNat,
    LessNat,
    AddNat,
    MulNat,
    Go,
    Print,
    Input,
    LenList,
    SkipList,
    TrimList,
    JoinList,
    Propagate,
}

/// An expression, generic over the phase.
pub enum Expr<M: Meta> {
    /// No-op error placeholder.
    Error,
    Literal(Literal),
    /// A local variable, referenced by name.
    Local(Ident),
    /// A reference to a top-level definition, with its instantiation.
    Global(M::Global),
    Tuple(Vec<Node<Expr<M>, M>>),
    /// A list literal: item expressions, then list-concatenation operands.
    List(Vec<Node<Expr<M>, M>>, Vec<Node<Expr<M>, M>>),
    /// A record literal: ordered name/expression pairs.
    Record(Vec<(SrcNode<Ident>, Node<Expr<M>, M>)>),
    /// Field access.
    Access(Node<Expr<M>, M>, SrcNode<Ident>),
    /// A pattern match: the flag records whether the match was introduced by
    /// desugaring rather than written by the programmer, so exhaustiveness
    /// diagnostics can be attributed correctly.
    Match(bool, Node<Expr<M>, M>, Vec<(Node<Binding<M>, M>, Node<Expr<M>, M>)>),
    /// A single-argument function; curried functions are nested.
    Func(Node<Ident, M>, Node<Expr<M>, M>),
    Apply(Node<Expr<M>, M>, Node<Expr<M>, M>),
    /// Data-constructor application: the owning data-type reference, the
    /// constructor name, and the payload.
    Cons(M::Data, Ident, Node<Expr<M>, M>),
    /// Type-class member access: resolution metadata, class slot, member
    /// name.
    ClassAccess(M, M::Class, SrcNode<Ident>),
    Intrinsic(SrcNode<Intrinsic>, Vec<Node<Expr<M>, M>>),
    /// Functional record update: the base record and ordered field
    /// overrides.
    Update(Node<Expr<M>, M>, Vec<(SrcNode<Ident>, Node<Expr<M>, M>)>),
    /// A scope boundary that intercepts and collects the effects raised
    /// inside it.
    Basin(M::Effect, Node<Expr<M>, M>),
    /// Performs (raises) an effect.
    Suspend(M::Effect, Node<Expr<M>, M>),
    /// Installs an effect handler: the handled body, the effect, the
    /// continuation binder, and the handler body receiving resumption
    /// control.
    Handle { expr: Node<Expr<M>, M>, eff: M::Effect, send: Node<Ident, M>, recv: Node<Expr<M>, M> },
}

pub type InferExpr = InferNode<Expr<InferMeta>>;

pub type TyExpr = TyNode<Expr<TyMeta>>;

pub type ConExpr = ConNode<Expr<ConMeta>>;

/// The locals a lowered expression reads that `bound` does not supply, in
/// first-read order. A name read free twice yields two entries: no
/// deduplication is performed.
pub open spec fn free_vars(e: Expr<ConMeta>, bound: Seq<Seq<char>>) -> Seq<Seq<char>>
    decreases e,
{
    match e {
        Expr::Error => Seq::empty(),
        Expr::Literal(_) => Seq::empty(),
        Expr::Local(x) => if bound.contains(x@) {
            Seq::empty()
        } else {
            seq![x@]
        },
        Expr::Global(_) => Seq::empty(),
        Expr::Tuple(items) => free_vars_list(items@, bound),
        Expr::List(items, tails) => free_vars_list(items@, bound) + free_vars_list(tails@, bound),
        Expr::Record(fields) => free_vars_fields(fields@, bound),
        Expr::Access(inner, _) => free_vars(*inner.item, bound),
        Expr::Match(_, pred, arms) => free_vars(*pred.item, bound) + free_vars_arms(arms@, bound),
        Expr::Func(arg, body) => free_vars(*body.item, bound.push((*arg.item)@)),
        Expr::Apply(f, x) => free_vars(*f.item, bound) + free_vars(*x.item, bound),
        Expr::Cons(_, _, inner) => free_vars(*inner.item, bound),
        Expr::ClassAccess(_, _, _) => Seq::empty(),
        Expr::Intrinsic(_, args) => free_vars_list(args@, bound),
        Expr::Update(rec, fields) => free_vars(*rec.item, bound) + free_vars_fields(
            fields@,
            bound,
        ),
        Expr::Basin(_, inner) => free_vars(*inner.item, bound),
        Expr::Suspend(_, inner) => free_vars(*inner.item, bound),
        Expr::Handle { expr, eff: _, send, recv } => free_vars(*expr.item, bound) + free_vars(
            *recv.item,
            bound.push((*send.item)@),
        ),
    }
}

/// The free locals of a sequence of expressions, in order.
pub open spec fn free_vars_list(items: Seq<Node<Expr<ConMeta>, ConMeta>>, bound: Seq<
    Seq<char>,
>) -> Seq<Seq<char>>
    decreases items,
{
    if items.len() == 0 {
        Seq::empty()
    } else {
        free_vars_list(items.drop_last(), bound) + free_vars(*items.last().item, bound)
    }
}

/// The free locals of a sequence of record fields, in order.
pub open spec fn free_vars_fields(
    fields: Seq<(SrcNode<Ident>, Node<Expr<ConMeta>, ConMeta>)>,
    bound: Seq<Seq<char>>,
) -> Seq<Seq<char>>
    decreases fields,
{
    if fields.len() == 0 {
        Seq::empty()
    } else {
        free_vars_fields(fields.drop_last(), bound) + free_vars(*fields.last().1.item, bound)
    }
}

/// The free locals of a sequence of match arms, in order: each arm's body is
/// read under `bound` extended with the names its binding captures.
pub open spec fn free_vars_arms(
    arms: Seq<(Node<Binding<ConMeta>, ConMeta>, Node<Expr<ConMeta>, ConMeta>)>,
    bound: Seq<Seq<char>>,
) -> Seq<Seq<char>>
    decreases arms,
{
    if arms.len() == 0 {
        Seq::empty()
    } else {
        free_vars_arms(arms.drop_last(), bound) + free_vars(
            *arms.last().1.item,
            bound + entry_names(binding_entries(arms.last().0)),
        )
    }
}

/// Whether `stack` holds an identifier naming the same name as `x`.
#[verifier::loop_isolation(false)]
fn stack_contains(stack: &Vec<Ident>, x: &Ident) -> (r: bool)
    ensures
        r == ident_views(stack@).contains(x@),
{
    let mut k: usize = 0;
    while k < stack.len()
        invariant
            k <= stack@.len(),
            forall|j: int| 0 <= j < k ==> stack@[j]@ != x@,
        decreases stack@.len() - k,
    {
        if stack[k].same_name(x) {
            proof {
                assert(ident_views(stack@)[k as int] == x@);
            }
            return true;
        }
        k += 1;
    }
    proof {
        assert forall|j: int| 0 <= j < ident_views(stack@).len() implies ident_views(stack@)[j]
            != x@ by {
            assert(stack@[j]@ != x@);
        }
    }
    false
}

impl Expr<ConMeta> {
    /// Appends to `required` the locals this expression reads that `stack`
    /// does not supply, in first-read order, restoring `stack` before
    /// returning.
    #[verifier::loop_isolation(false)]
    fn required_locals_inner(&self, stack: &mut Vec<Ident>, required: &mut Vec<Ident>)
        ensures
            final(stack)@ == old(stack)@,
            (ident_views(final(required)@) == ident_views(old(required)@) + free_vars(
                *self,
                ident_views(old(stack)@),
            )),
        decreases *self,
    {
        let ghost bound = ident_views(stack@);
        let ghost req0 = ident_views(required@);
        match self {
            Expr::Error => {},
            Expr::Literal(_) => {},
            Expr::Local(local) => {
                if !stack_contains(stack, local) {
                    required.push(local.duplicate());
                    proof {
                        assert(ident_views(required@) =~= req0 + seq![local@]);
                    }
                }
            },
            Expr::Global(_) => {},
            Expr::Tuple(items) => {
                Self::required_locals_list(items, stack, required);
            },
            Expr::List(items, tails) => {
                Self::required_locals_list(items, stack, required);
                Self::required_locals_list(tails, stack, required);
                proof {
                    assert(ident_views(required@) =~= req0 + free_vars(*self, bound));
                }
            },
            Expr::Record(fields) => {
                Self::required_locals_fields(fields, stack, required);
            },
            Expr::Access(inner, _) => {
                inner.item.required_locals_inner(stack, required);
            },
            Expr::Match(_, pred, arms) => {
                pred.item.required_locals_inner(stack, required);
                let ghost req1 = ident_views(required@);
                let mut ai: usize = 0;
                while ai < arms.len()
                    invariant
                        ai <= arms@.len(),
                        stack@ == old(stack)@,
                        (ident_views(required@) == req1 + free_vars_arms(
                            arms@.take(ai as int),
                            bound,
                        )),
                    decreases arms@.len() - ai,
                {
                    let old_len = stack.len();
                    let ghost snap = stack@;
                    let mut pairs: Vec<(SrcNode<Ident>, ConMeta)> = Vec::new();
                    visit_bindings(&arms[ai].0, &mut pairs);
                    proof {
                        assert(pair_views(pairs@) =~= binding_entries(arms@[ai as int].0));
                    }
                    let mut k: usize = 0;
                    while k < pairs.len()
                        invariant
                            k <= pairs@.len(),
                            stack@.len() == old_len + k,
                            (stack@.take(old_len as int) == snap),
                            forall|t: int|
                                0 <= t < k ==> stack@[old_len + t]@ == binding_entries(
                                    arms@[ai as int].0,
                                )[t].0,
                        decreases pairs@.len() - k,
                    {
                        stack.push(pairs[k].0.item.duplicate());
                        proof {
                            assert(stack@.take(old_len as int) =~= snap);
                            assert(pair_views(pairs@)[k as int].0 == pairs@[k as int].0.item@);
                        }
                        k += 1;
                    }
                    proof {
                        let entries = binding_entries(arms@[ai as int].0);
                        assert(bound =~= ident_views(snap));
                        assert forall|j: int| 0 <= j < stack@.len() implies #[trigger] stack@[j]@
                            == (bound + entry_names(entries))[j] by {
                            if j < old_len {
                                assert(stack@.take(old_len as int)[j] == stack@[j]);
                                assert(bound[j] == snap[j]@);
                            } else {
                                assert(entry_names(entries)[j - old_len] == entries[j
                                    - old_len].0);
                            }
                        }
                        assert(ident_views(stack@) =~= bound + entry_names(entries));
                    }
                    arms[ai].1.item.required_locals_inner(stack, required);
                    stack.truncate(old_len);
                    proof {
                        assert(stack@ =~= snap);
                        assert(arms@.take(ai as int + 1).drop_last() =~= arms@.take(ai as int));
                        assert(ident_views(required@) =~= req1 + free_vars_arms(
                            arms@.take(ai as int + 1),
                            bound,
                        ));
                    }
                    ai += 1;
                }
                proof {
                    assert(arms@.take(arms@.len() as int) =~= arms@);
                    assert(ident_views(required@) =~= req0 + free_vars(*self, bound));
                }
            },
            Expr::Func(arg, body) => {
                stack.push(arg.item.duplicate());
                proof {
                    assert(ident_views(stack@) =~= bound.push((*arg.item)@));
                }
                body.item.required_locals_inner(stack, required);
                stack.pop();
                proof {
                    assert(stack@ =~= old(stack)@);
                }
            },
            Expr::Apply(f, x) => {
                f.item.required_locals_inner(stack, required);
                x.item.required_locals_inner(stack, required);
                proof {
                    assert(ident_views(required@) =~= req0 + free_vars(*self, bound));
                }
            },
            Expr::Cons(_, _, inner) => {
                inner.item.required_locals_inner(stack, required);
            },
            Expr::ClassAccess(_, _, _) => {},
            Expr::Intrinsic(_, args) => {
                Self::required_locals_list(args, stack, required);
            },
            Expr::Update(rec, fields) => {
                rec.item.required_locals_inner(stack, required);
                Self::required_locals_fields(fields, stack, required);
                proof {
                    assert(ident_views(required@) =~= req0 + free_vars(*self, bound));
                }
            },
            Expr::Basin(_, inner) => {
                inner.item.required_locals_inner(stack, required);
            },
            Expr::Suspend(_, inner) => {
                inner.item.required_locals_inner(stack, required);
            },
            Expr::Handle { expr, eff: _, send, recv } => {
                expr.item.required_locals_inner(stack, required);
                stack.push(send.item.duplicate());
                proof {
                    assert(ident_views(stack@) =~= bound.push((*send.item)@));
                }
                recv.item.required_locals_inner(stack, required);
                stack.pop();
                proof {
                    assert(stack@ =~= old(stack)@);
                    assert(ident_views(required@) =~= req0 + free_vars(*self, bound));
                }
            },
        }
    }

    /// Appends the free locals of each expression in `items`, in order.
    #[verifier::loop_isolation(false)]
    fn required_locals_list(items: &Vec<Node<Expr<ConMeta>, ConMeta>>, stack: &mut Vec<Ident>,
        required: &mut Vec<Ident>)
        ensures
            final(stack)@ == old(stack)@,
            (ident_views(final(required)@) == ident_views(old(required)@) + free_vars_list(
                items@,
                ident_views(old(stack)@),
            )),
        decreases items@,
    {
        let ghost bound = ident_views(stack@);
        let ghost req0 = ident_views(required@);
        let mut j: usize = 0;
        while j < items.len()
            invariant
                j <= items@.len(),
                stack@ == old(stack)@,
                (ident_views(required@) == req0 + free_vars_list(items@.take(j as int), bound)),
            decreases items@.len() - j,
        {
            items[j].item.required_locals_inner(stack, required);
            proof {
                assert(items@.take(j as int + 1).drop_last() =~= items@.take(j as int));
                assert(ident_views(required@) =~= req0 + free_vars_list(
                    items@.take(j as int + 1),
                    bound,
                ));
            }
            j += 1;
        }
        proof {
            assert(items@.take(items@.len() as int) =~= items@);
        }
    }

    /// Appends the free locals of each field expression in `fields`, in
    /// order.
    #[verifier::loop_isolation(false)]
    fn required_locals_fields(
        fields: &Vec<(SrcNode<Ident>, Node<Expr<ConMeta>, ConMeta>)>,
        stack: &mut Vec<Ident>,
        required: &mut Vec<Ident>,
    )
        ensures
            final(stack)@ == old(stack)@,
            (ident_views(final(required)@) == ident_views(old(required)@) + free_vars_fields(
                fields@,
                ident_views(old(stack)@),
            )),
        decreases fields@,
    {
        let ghost bound = ident_views(stack@);
        let ghost req0 = ident_views(required@);
        let mut j: usize = 0;
        while j < fields.len()
            invariant
                j <= fields@.len(),
                stack@ == old(stack)@,
                (ident_views(required@) == req0 + free_vars_fields(
                    fields@.take(j as int),
                    bound,
                )),
            decreases fields@.len() - j,
        {
            fields[j].1.item.required_locals_inner(stack, required);
            proof {
                assert(fields@.take(j as int + 1).drop_last() =~= fields@.take(j as int));
                assert(ident_views(required@) =~= req0 + free_vars_fields(
                    fields@.take(j as int + 1),
                    bound,
                ));
            }
            j += 1;
        }
        proof {
            assert(fields@.take(fields@.len() as int) =~= fields@);
        }
    }

    /// The locals this expression reads that neither `already_has` nor any
    /// enclosing binder supplies, in first-read order; a name read free twice
    /// yields two entries.
    pub fn required_locals(&self, already_has: Vec<Ident>) -> (r: Vec<Ident>)
        ensures
            (ident_views(r@) == free_vars(*self, ident_views(already_has@))),
    {
        let mut stack = already_has;
        let mut required: Vec<Ident> = Vec::new();
        proof {
            assert(ident_views(required@) =~= Seq::<Seq<char>>::empty());
        }
        self.required_locals_inner(&mut stack, &mut required);
        proof {
            assert(ident_views(required@) =~= free_vars(*self, ident_views(already_has@)));
        }
        required
    }
}

impl Node<Binding<InferMeta>, InferMeta> {
    /// The (captured name, unresolved type slot) pairs introduced by every
    /// capture reachable in this binding, in visit order.
    #[verifier::loop_isolation(false)]
    pub fn get_binding_tys(&self) -> (r: Vec<(SrcNode<Ident>, TyVar)>)
        ensures
            r@.len() == binding_entries(*self).len(),
            forall|j: int|
                0 <= j < r@.len() ==> {
                    let e = #[trigger] binding_entries(*self)[j];
                    r@[j].0.item@ == e.0 && r@[j].0.span == e.1 && r@[j].1 == e.2.ty
                },
    {
        let mut pairs: Vec<(SrcNode<Ident>, InferMeta)> = Vec::new();
        visit_bindings(self, &mut pairs);
        proof {
            assert(pair_views(pairs@) =~= binding_entries(*self));
        }
        let mut out: Vec<(SrcNode<Ident>, TyVar)> = Vec::new();
        let mut k: usize = 0;
        while k < pairs.len()
            invariant
                k <= pairs@.len(),
                out@.len() == k,
                forall|j: int|
                    0 <= j < k ==> {
                        let e = #[trigger] binding_entries(*self)[j];
                        out@[j].0.item@ == e.0 && out@[j].0.span == e.1 && out@[j].1 == e.2.ty
                    },
            decreases pairs@.len() - k,
        {
            let name = pairs[k].0.item.duplicate();
            let span = pairs[k].0.span;
            let ty = pairs[k].1.ty;
            out.push((SrcNode { item: name, span }, ty));
            k += 1;
        }
        out
    }
}

} // verus!
