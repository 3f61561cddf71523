//! The declaration registry: owns every top-level data-type and alias
//! declaration. Declaring reserves a stable integer handle with an empty
//! body; defining fills the body in later, so declarations may reference each
//! other regardless of source order. Type-level names (data types and
//! aliases together) share one namespace; constructor names share one global
//! namespace across all data types.

use vstd::pervasive::unreached;
use vstd::pervasive::VecAdditionalExecFns;
use vstd::prelude::*;

use crate::error::{error_views, Error, ErrorView};
use crate::lut::{cons_lut_map, name_lut_map, ConsEntry, ConsLut, NameEntry, NameLut, TypeItemId};
use crate::syntax::{Attr, GenScopeId, Ident, Span, SrcNode, TyId};

verus! {

/// The body of a declared algebraic data type: its name, its attributes, its
/// generic-parameter scope, and its constructors in declaration order, each a
/// name paired with the handle of its payload type.
pub struct Data {
    pub name: SrcNode<Ident>,
    pub attr: Vec<Attr>,
    pub gen_scope: GenScopeId,
    pub cons: Vec<(SrcNode<Ident>, TyId)>,
}

/// Opaque handle of a declared data type; stable once issued, valid only
/// against the registry that issued it.
#[derive(Clone, Copy, Debug, PartialEq, Eq, Structural, PartialOrd, Ord, Hash)]
pub struct DataId(pub usize);

/// Opaque handle of a declared alias; stable once issued, valid only against
/// the registry that issued it.
#[derive(Clone, Copy, Debug, PartialEq, Eq, Structural, Hash)]
pub struct AliasId(pub usize);

/// The body of a declared type alias.
pub struct Alias {
    pub name: Ident,
    pub attr: Vec<Attr>,
    pub gen_scope: GenScopeId,
    pub ty: TyId,
}

/// The data types that library source has marked, by attribute, as playing a
/// privileged compiler-recognized role.
#[derive(Clone, Copy, Debug, PartialEq, Eq, Structural)]
pub struct Lang {
    /// The effect-runner type, marked `lang(go)`.
    pub go: Option<DataId>,
}

/// The name of the attribute that marks lang items.
pub open spec fn lang_attr_name() -> Seq<char> {
    "lang"@
}

/// The name of the effect-runner lang item.
pub open spec fn go_item_name() -> Seq<char> {
    "go"@
}

/// Whether `a` lists `item` among its argument names.
pub open spec fn attr_lists_arg(a: Attr, item: Seq<char>) -> bool {
    match a.args {
        Some(args) => exists|k: int| 0 <= k < args@.len() && args@[k]@ == item,
        None => false,
    }
}

/// Whether `attrs` carries some attribute named `lang` that lists `item`
/// among its argument names.
pub open spec fn lang_scan(attrs: Seq<Attr>, item: Seq<char>) -> bool {
    exists|i: int|
        0 <= i < attrs.len() && (#[trigger] attrs[i]).name@ == lang_attr_name() && attr_lists_arg(
            attrs[i],
            item,
        )
}

/// The constructor namespace after registering the constructors `cs` of the
/// data type `id`, in order: a name already present keeps its original entry.
pub open spec fn conses_after(
    m: Map<Seq<char>, ConsEntry>,
    id: DataId,
    cs: Seq<(SrcNode<Ident>, TyId)>,
) -> Map<Seq<char>, ConsEntry>
    decreases cs.len(),
{
    if cs.len() == 0 {
        m
    } else {
        let m2 = conses_after(m, id, cs.drop_last());
        let c = cs.last();
        if m2.contains_key(c.0.item@) {
            m2
        } else {
            m2.insert(c.0.item@, ConsEntry { span: c.0.span, data: id })
        }
    }
}

/// The duplicate-constructor conditions reported while registering the
/// constructors `cs` of the data type `id`, in order.
pub open spec fn cons_collisions(
    m: Map<Seq<char>, ConsEntry>,
    id: DataId,
    cs: Seq<(SrcNode<Ident>, TyId)>,
) -> Seq<ErrorView>
    decreases cs.len(),
{
    if cs.len() == 0 {
        Seq::empty()
    } else {
        let m2 = conses_after(m, id, cs.drop_last());
        let c = cs.last();
        let earlier = cons_collisions(m, id, cs.drop_last());
        if m2.contains_key(c.0.item@) {
            earlier.push(
                ErrorView::DuplicateConsName {
                    name: c.0.item@,
                    first: m2[c.0.item@].span,
                    second: c.0.span,
                },
            )
        } else {
            earlier
        }
    }
}

/// The declaration registry.
pub struct Datas {
    name_lut: NameLut,
    cons_lut: ConsLut,
    datas: Vec<(Span, Option<Data>)>,
    aliases: Vec<(Span, Option<Alias>)>,
    pub lang: Lang,
}

impl Datas {
    /// The shared type namespace: what each declared type-level name resolves
    /// to.
    pub closed spec fn names(&self) -> Map<Seq<char>, NameEntry> {
        name_lut_map(self.name_lut)
    }

    /// The global constructor namespace: what each registered constructor
    /// name resolves to.
    pub closed spec fn conses(&self) -> Map<Seq<char>, ConsEntry> {
        cons_lut_map(self.cons_lut)
    }

    /// The data slots in declaration order: the declaration's span, and its
    /// body once defined.
    pub closed spec fn data_slots(&self) -> Seq<(Span, Option<Data>)> {
        self.datas@
    }

    /// The alias slots in declaration order: the declaration's span, and its
    /// body once defined.
    pub closed spec fn alias_slots(&self) -> Seq<(Span, Option<Alias>)> {
        self.aliases@
    }

    /// The handle registered as the `go` lang item, if any declaration has
    /// registered itself as it.
    pub closed spec fn lang_go(&self) -> Option<DataId> {
        self.lang.go
    }

    /// Every handle recorded in a namespace or as a lang item points at a
    /// slot this registry has issued.
    pub open spec fn wf(&self) -> bool {
        &&& forall|n: Seq<char>|
            #[trigger] self.names().contains_key(n) ==> match self.names()[n].item {
                TypeItemId::Data(id) => id.0 < self.data_slots().len(),
                TypeItemId::Alias(id) => id.0 < self.alias_slots().len(),
            }
        &&& forall|n: Seq<char>|
            #[trigger] self.conses().contains_key(n) ==> self.conses()[n].data.0
                < self.data_slots().len()
        &&& match self.lang_go() {
            Some(id) => id.0 < self.data_slots().len(),
            None => true,
        }
    }

    /// Whether this registry issued `id`.
    pub open spec fn valid_data_id(&self, id: DataId) -> bool {
        id.0 < self.data_slots().len()
    }

    /// Whether this registry issued `id`.
    pub open spec fn valid_alias_id(&self, id: AliasId) -> bool {
        id.0 < self.alias_slots().len()
    }

    /// Whether the data type `id` has been given its body.
    pub open spec fn data_defined(&self, id: DataId) -> bool {
        self.valid_data_id(id) && self.data_slots()[id.0 as int].1 is Some
    }

    /// Whether the alias `id` has been given its body.
    pub open spec fn alias_defined(&self, id: AliasId) -> bool {
        self.valid_alias_id(id) && self.alias_slots()[id.0 as int].1 is Some
    }
}

/// Whether `a` lists the name `item` among its argument names.
#[verifier::loop_isolation(false)]
fn attr_args_list(a: &Attr, item: &Ident) -> (r: bool)
    ensures
        r == attr_lists_arg(*a, item@),
{
    match &a.args {
        None => false,
        Some(args) => {
            let mut k: usize = 0;
            while k < args.len()
                invariant
                    k <= args@.len(),
                    forall|j: int| 0 <= j < k ==> args@[j]@ != item@,
                decreases args@.len() - k,
            {
                if args[k].same_name(item) {
                    proof {
                        let ghost w: int = k as int;
                        assert(a.args matches Some(v) && 0 <= w < v@.len() && v@[w]@ == item@);
                    }
                    return true;
                }
                k += 1;
            }
            false
        },
    }
}

/// Whether some attribute named `lang` in `attrs` lists `go`.
#[verifier::loop_isolation(false)]
fn scan_for_go(attrs: &Vec<Attr>) -> (r: bool)
    ensures
        r == lang_scan(attrs@, go_item_name()),
{
    let lang_ident = Ident::new("lang".to_owned());
    let go_ident = Ident::new("go".to_owned());
    let mut i: usize = 0;
    while i < attrs.len()
        invariant
            i <= attrs@.len(),
            lang_ident@ == lang_attr_name(),
            go_ident@ == go_item_name(),
            forall|j: int|
                0 <= j < i ==> !((#[trigger] attrs@[j]).name@ == lang_attr_name()
                    && attr_lists_arg(attrs@[j], go_item_name())),
        decreases attrs@.len() - i,
    {
        if attrs[i].name.same_name(&lang_ident) {
            if attr_args_list(&attrs[i], &go_ident) {
                proof {
                    assert((attrs@[i as int]).name@ == lang_attr_name() && attr_lists_arg(
                        attrs@[i as int],
                        go_item_name(),
                    ));
                }
                return true;
            }
        }
        i += 1;
    }
    false
}

impl Datas {
    /// Resolves a type-level name to the data type that owns it.
    pub fn lookup_data(&self, name: Ident) -> (r: Option<DataId>)
        ensures
            match r {
                Some(id) => self.names().contains_key(name@) && self.names()[name@].item
                    == TypeItemId::Data(id),
                None => !self.names().contains_key(name@) || self.names()[name@].item is Alias,
            },
    {
        match self.name_lut.get(&name) {
            Some(e) => match e.item {
                TypeItemId::Data(id) => Some(id),
                TypeItemId::Alias(_) => None,
            },
            None => None,
        }
    }

    /// Resolves a type-level name to the alias that owns it.
    pub fn lookup_alias(&self, name: Ident) -> (r: Option<AliasId>)
        ensures
            match r {
                Some(id) => self.names().contains_key(name@) && self.names()[name@].item
                    == TypeItemId::Alias(id),
                None => !self.names().contains_key(name@) || self.names()[name@].item is Data,
            },
    {
        match self.name_lut.get(&name) {
            Some(e) => match e.item {
                TypeItemId::Data(_) => None,
                TypeItemId::Alias(id) => Some(id),
            },
            None => None,
        }
    }

    /// Resolves a constructor name to the data type it belongs to.
    pub fn lookup_cons(&self, name: Ident) -> (r: Option<DataId>)
        ensures
            match r {
                Some(id) => self.conses().contains_key(name@) && self.conses()[name@].data == id,
                None => !self.conses().contains_key(name@),
            },
    {
        match self.cons_lut.get(&name) {
            Some(e) => Some(e.data),
            None => None,
        }
    }

    /// The generic-parameter scope a declared type-level name was declared
    /// with. Asking for an undeclared name is a compiler defect, so callers
    /// must show the name is declared.
    pub fn name_gen_scope(&self, name: Ident) -> (r: GenScopeId)
        requires
            self.names().contains_key(name@),
        ensures
            r == self.names()[name@].gen_scope,
    {
        match self.name_lut.get(&name) {
            Some(e) => e.gen_scope,
            None => unreached(),
        }
    }

    /// The stored body of the data type `id`. Reading a
    /// declared-but-undefined body is a compiler defect, never a user-facing
    /// error, so callers must show the body has been supplied.
    pub fn get_data(&self, data: DataId) -> (r: &Data)
        requires
            self.data_defined(data),
        ensures
            (self.data_slots()[data.0 as int].1 == Some(*r)),
    {
        match &self.datas[data.0].1 {
            Some(d) => d,
            None => unreached(),
        }
    }

    /// The span the data type `id` was declared at.
    pub fn get_data_span(&self, data: DataId) -> (r: Span)
        requires
            self.valid_data_id(data),
        ensures
            r == self.data_slots()[data.0 as int].0,
    {
        self.datas[data.0].0
    }

    /// The stored body of the alias `id`. As with data types, reading a
    /// declared-but-undefined body is a compiler defect, never a user-facing
    /// error, so callers must show the body has been supplied.
    pub fn get_alias(&self, alias: AliasId) -> (r: Option<&Alias>)
        requires
            self.alias_defined(alias),
        ensures
            match r {
                Some(a) => self.alias_slots()[alias.0 as int].1 == Some(*a),
                None => false,
            },
    {
        match &self.aliases[alias.0].1 {
            Some(a) => Some(a),
            None => unreached(),
        }
    }

    /// The span the alias `id` was declared at.
    pub fn get_alias_span(&self, alias: AliasId) -> (r: Span)
        requires
            self.valid_alias_id(alias),
        ensures
            r == self.alias_slots()[alias.0 as int].0,
    {
        self.aliases[alias.0].0
    }

    /// Declares a data type: reserves the next handle with an empty body and
    /// claims `name` in the shared type namespace, or fails with a
    /// duplicate-type-name condition carrying the original declaration's
    /// span. On success, an attribute named `lang` listing `go` among its
    /// arguments registers the new handle as the `go` lang item (a later
    /// declaration wins).
    pub fn declare_data(&mut self, name: SrcNode<Ident>, gen_scope: GenScopeId, attr: &Vec<
        Attr,
    >) -> (r: Result<DataId, Error>)
        requires
            old(self).wf(),
        ensures
            final(self).wf(),
            (final(self).conses() == old(self).conses()),
            (final(self).alias_slots() == old(self).alias_slots()),
            match r {
                Ok(id) => {
                    &&& !old(self).names().contains_key(name.item@)
                    &&& id.0 == old(self).data_slots().len()
                    &&& (final(self).names() == old(self).names().insert(
                        name.item@,
                        (NameEntry { span: name.span, item: TypeItemId::Data(id), gen_scope }),
                    ))
                    &&& (final(self).data_slots() == old(self).data_slots().push(
                        (name.span, None::<Data>),
                    ))
                    &&& final(self).lang_go() == (if lang_scan(attr@, go_item_name()) {
                        Some(id)
                    } else {
                        old(self).lang_go()
                    })
                },
                Err(e) => {
                    &&& old(self).names().contains_key(name.item@)
                    &&& e@ == (ErrorView::DuplicateTypeName {
                        name: name.item@,
                        first: old(self).names()[name.item@].span,
                        second: name.span,
                    })
                    &&& (final(self).names() == old(self).names())
                    &&& (final(self).data_slots() == old(self).data_slots())
                    &&& final(self).lang_go() == old(self).lang_go()
                },
            },
    {
        let id = DataId(self.datas.len());
        let span = name.span;
        match self.name_lut.get(&name.item) {
            Some(prev) => Err(
                Error::DuplicateTypeName { name: name.item, first: prev.span, second: span },
            ),
            None => {
                let entry = NameEntry { span, item: TypeItemId::Data(id), gen_scope };
                self.name_lut.insert(name.item, entry);
                if scan_for_go(attr) {
                    self.lang.go = Some(id);
                }
                self.datas.push((span, None));
                proof {
                    assert forall|n: Seq<char>| #[trigger] self.conses().contains_key(n)
                        implies self.conses()[n].data.0 < self.data_slots().len() by {
                        assert(old(self).conses().contains_key(n));
                    }
                    assert forall|n: Seq<char>| #[trigger] self.names().contains_key(n)
                        implies match self.names()[n].item {
                        TypeItemId::Data(d) => d.0 < self.data_slots().len(),
                        TypeItemId::Alias(a) => a.0 < self.alias_slots().len(),
                    } by {
                        if n != name.item@ {
                            assert(old(self).names().contains_key(n));
                            assert(self.names()[n] == old(self).names()[n]);
                        }
                    }
                }
                Ok(id)
            },
        }
    }

    /// Declares a type alias: reserves the next handle with an empty body and
    /// claims `name` in the shared type namespace, or fails with a
    /// duplicate-type-name condition carrying the original declaration's
    /// span.
    pub fn declare_alias(&mut self, name: Ident, span: Span, gen_scope: GenScopeId) -> (r: Result<
        AliasId,
        Error,
    >)
        requires
            old(self).wf(),
        ensures
            final(self).wf(),
            (final(self).conses() == old(self).conses()),
            (final(self).data_slots() == old(self).data_slots()),
            final(self).lang_go() == old(self).lang_go(),
            match r {
                Ok(id) => {
                    &&& !old(self).names().contains_key(name@)
                    &&& id.0 == old(self).alias_slots().len()
                    &&& (final(self).names() == old(self).names().insert(
                        name@,
                        (NameEntry { span, item: TypeItemId::Alias(id), gen_scope }),
                    ))
                    &&& (final(self).alias_slots() == old(self).alias_slots().push(
                        (span, None::<Alias>),
                    ))
                },
                Err(e) => {
                    &&& old(self).names().contains_key(name@)
                    &&& e@ == (ErrorView::DuplicateTypeName {
                        name: name@,
                        first: old(self).names()[name@].span,
                        second: span,
                    })
                    &&& (final(self).names() == old(self).names())
                    &&& (final(self).alias_slots() == old(self).alias_slots())
                },
            },
    {
        let id = AliasId(self.aliases.len());
        match self.name_lut.get(&name) {
            Some(prev) => Err(
                Error::DuplicateTypeName { name, first: prev.span, second: span },
            ),
            None => {
                let entry = NameEntry { span, item: TypeItemId::Alias(id), gen_scope };
                self.name_lut.insert(name, entry);
                self.aliases.push((span, None));
                proof {
                    assert forall|n: Seq<char>| #[trigger] self.conses().contains_key(n)
                        implies self.conses()[n].data.0 < self.data_slots().len() by {
                        assert(old(self).conses().contains_key(n));
                    }
                    assert forall|n: Seq<char>| #[trigger] self.names().contains_key(n)
                        implies match self.names()[n].item {
                        TypeItemId::Data(d) => d.0 < self.data_slots().len(),
                        TypeItemId::Alias(a) => a.0 < self.alias_slots().len(),
                    } by {
                        if n != name@ {
                            assert(old(self).names().contains_key(n));
                            assert(self.names()[n] == old(self).names()[n]);
                        }
                    }
                }
                Ok(id)
            },
        }
    }

    /// Stores `data` as the body of the data type `id` (the body is recorded
    /// even if some constructors collide), then registers each constructor
    /// name in the global constructor namespace in order, collecting a
    /// duplicate-constructor condition for every name already taken rather
    /// than aborting: one bad constructor does not block the rest.
    #[verifier::loop_isolation(false)]
    pub fn define_data(&mut self, id: DataId, _span: Span, data: Data) -> (r: Result<
        (),
        Vec<Error>,
    >)
        requires
            old(self).wf(),
            old(self).valid_data_id(id),
        ensures
            final(self).wf(),
            (final(self).names() == old(self).names()),
            (final(self).alias_slots() == old(self).alias_slots()),
            final(self).lang_go() == old(self).lang_go(),
            (final(self).conses() == conses_after(old(self).conses(), id, data.cons@)),
            (final(self).data_slots() == old(self).data_slots().update(
                id.0 as int,
                (old(self).data_slots()[id.0 as int].0, Some(data)),
            )),
            ({
                let errs = cons_collisions(old(self).conses(), id, data.cons@);
                match r {
                    Ok(_) => errs.len() == 0,
                    Err(es) => errs.len() > 0 && error_views(es@) == errs,
                }
            }),
    {
        let ghost m0 = self.conses();
        let mut errors: Vec<Error> = Vec::new();
        let mut i: usize = 0;
        proof {
            assert(data.cons@.take(0) =~= Seq::<(SrcNode<Ident>, TyId)>::empty());
            assert(error_views(errors@) =~= cons_collisions(m0, id, data.cons@.take(0)));
        }
        while i < data.cons.len()
            invariant
                i <= data.cons@.len(),
                m0 == old(self).conses(),
                (self.conses() == conses_after(m0, id, data.cons@.take(i as int))),
                (error_views(errors@) == cons_collisions(m0, id, data.cons@.take(i as int))),
                (self.names() == old(self).names()),
                (self.data_slots() == old(self).data_slots()),
                (self.alias_slots() == old(self).alias_slots()),
                self.lang_go() == old(self).lang_go(),
                id.0 < self.data_slots().len(),
                forall|n: Seq<char>|
                    #[trigger] self.conses().contains_key(n) ==> self.conses()[n].data.0
                        < self.data_slots().len(),
            decreases data.cons@.len() - i,
        {
            let c_span = data.cons[i].0.span;
            proof {
                assert(data.cons@.take(i as int + 1).drop_last() =~= data.cons@.take(i as int));
                assert(data.cons@.take(i as int + 1).last() == data.cons@[i as int]);
            }
            match self.cons_lut.get(&data.cons[i].0.item) {
                Some(prev) => {
                    let e_name = data.cons[i].0.item.duplicate();
                    errors.push(
                        Error::DuplicateConsName { name: e_name, first: prev.span, second: c_span },
                    );
                    proof {
                        assert(error_views(errors@) =~= cons_collisions(
                            m0,
                            id,
                            data.cons@.take(i as int + 1),
                        ));
                    }
                },
                None => {
                    let c_name = data.cons[i].0.item.duplicate();
                    self.cons_lut.insert(c_name, ConsEntry { span: c_span, data: id });
                },
            }
            i += 1;
        }
        proof {
            assert(data.cons@.take(data.cons@.len() as int) =~= data.cons@);
        }
        let decl_span = self.datas[id.0].0;
        self.datas.set(id.0, (decl_span, Some(data)));
        proof {
            assert forall|n: Seq<char>| #[trigger] self.names().contains_key(n)
                implies match self.names()[n].item {
                TypeItemId::Data(d) => d.0 < self.data_slots().len(),
                TypeItemId::Alias(a) => a.0 < self.alias_slots().len(),
            } by {
                assert(old(self).names().contains_key(n));
                assert(self.names()[n] == old(self).names()[n]);
            }
        }
        if errors.is_empty() {
            Ok(())
        } else {
            Err(errors)
        }
    }

    /// Stores `alias` as the body of the alias `id`; cannot fail.
    pub fn define_alias(&mut self, id: AliasId, alias: Alias)
        requires
            old(self).wf(),
            old(self).valid_alias_id(id),
        ensures
            final(self).wf(),
            (final(self).names() == old(self).names()),
            (final(self).conses() == old(self).conses()),
            (final(self).data_slots() == old(self).data_slots()),
            final(self).lang_go() == old(self).lang_go(),
            (final(self).alias_slots() == old(self).alias_slots().update(
                id.0 as int,
                (old(self).alias_slots()[id.0 as int].0, Some(alias)),
            )),
    {
        let decl_span = self.aliases[id.0].0;
        self.aliases.set(id.0, (decl_span, Some(alias)));
        proof {
            assert forall|n: Seq<char>| #[trigger] self.conses().contains_key(n)
                implies self.conses()[n].data.0 < self.data_slots().len() by {
                assert(old(self).conses().contains_key(n));
            }
            assert forall|n: Seq<char>| #[trigger] self.names().contains_key(n)
                implies match self.names()[n].item {
                TypeItemId::Data(d) => d.0 < self.data_slots().len(),
                TypeItemId::Alias(a) => a.0 < self.alias_slots().len(),
            } by {
                assert(old(self).names().contains_key(n));
                assert(self.names()[n] == old(self).names()[n]);
            }
        }
    }

    /// Reports, once all top-level declarations are processed, a
    /// missing-lang-item condition for `go` exactly when no declared data
    /// type registered itself as the `go` lang item.
    pub fn check_lang_items(&self) -> (r: Vec<Error>)
        ensures
            self.lang_go() is Some ==> r@.len() == 0,
            self.lang_go() is None ==> r@.len() == 1 && r@[0]@ == (ErrorView::MissingLangItem {
                name: go_item_name(),
            }),
    {
        let mut errors: Vec<Error> = Vec::new();
        if self.lang.go.is_none() {
            errors.push(Error::MissingLangItem { name: Ident::new("go".to_owned()) });
        }
        errors
    }
}

/// Handles are issued in strictly increasing order: a successful data
/// declaration returns a handle equal to the number of data slots issued
/// before it and extends the slots by one, so of two successive successful
/// declarations the second handle is strictly the larger. A failed
/// declaration leaves the slots unchanged and so consumes no handle.
pub proof fn lemma_handles_strictly_increase(
    before_first: Datas,
    between: Datas,
    first: DataId,
    second: DataId,
    slot: (Span, Option<Data>),
)
    requires
        first.0 == before_first.data_slots().len(),
        between.data_slots() == before_first.data_slots().push(slot),
        second.0 == between.data_slots().len(),
    ensures
        first.0 < second.0,
{
}

/// Defining a data type makes its body retrievable: once the registry's data
/// slots record `body` under `id`, the handle is defined and the stored body
/// is exactly `body`, constructor order included.
pub proof fn lemma_stored_body_is_retrievable(before: Datas, after: Datas, id: DataId, body: Data)
    requires
        before.valid_data_id(id),
        after.data_slots() == before.data_slots().update(
            id.0 as int,
            (before.data_slots()[id.0 as int].0, Some(body)),
        ),
    ensures
        after.data_defined(id),
        after.data_slots()[id.0 as int].1 == Some(body),
{
}

impl Default for Datas {
    /// An empty registry: no declarations, no constructors, no lang items.
    fn default() -> (r: Self)
        ensures
            r.wf(),
            (r.names() == Map::<Seq<char>, NameEntry>::empty()),
            (r.conses() == Map::<Seq<char>, ConsEntry>::empty()),
            (r.data_slots() == Seq::<(Span, Option<Data>)>::empty()),
            (r.alias_slots() == Seq::<(Span, Option<Alias>)>::empty()),
            r.lang_go() is None,
    {
        Datas {
            name_lut: NameLut::new(),
            cons_lut: ConsLut::new(),
            datas: Vec::new(),
            aliases: Vec::new(),
            lang: Lang { go: None },
        }
    }
}

} // verus!
