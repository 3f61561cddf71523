use tao_analysis::data::{Alias, Data, Datas};
use tao_analysis::error::Error;
use tao_analysis::syntax::{Attr, GenScopeId, Ident, Span, SrcNode, TyId};

fn ident(s: &str) -> Ident {
    Ident::new(s.to_string())
}

fn named(s: &str, a: u64, b: u64) -> SrcNode<Ident> {
    SrcNode::new(ident(s), Span::new(a, b))
}

fn scope(n: usize) -> GenScopeId {
    GenScopeId(n)
}

fn data_body(name: &str, cons: Vec<(&str, u64, usize)>) -> Data {
    Data {
        name: named(name, 0, 0),
        attr: Vec::new(),
        gen_scope: scope(0),
        cons: cons
            .into_iter()
            .map(|(c, sp, ty)| (named(c, sp, sp), TyId(ty)))
            .collect(),
    }
}

#[test]
fn distinct_declarations_all_succeed_with_increasing_handles() {
    let mut datas = Datas::default();
    let a = datas.declare_data(named("A", 1, 2), scope(0), &Vec::new()).unwrap();
    let b = datas.declare_data(named("B", 3, 4), scope(0), &Vec::new()).unwrap();
    let c = datas.declare_data(named("C", 5, 6), scope(0), &Vec::new()).unwrap();
    assert_eq!(a.0, 0);
    assert_eq!(b.0, 1);
    assert_eq!(c.0, 2);
    assert!(a < b && b < c);
}

#[test]
fn failed_declaration_consumes_no_handle() {
    let mut datas = Datas::default();
    let a = datas.declare_data(named("A", 1, 2), scope(0), &Vec::new()).unwrap();
    assert!(datas.declare_data(named("A", 3, 4), scope(0), &Vec::new()).is_err());
    let d = datas.declare_data(named("D", 5, 6), scope(0), &Vec::new()).unwrap();
    assert_eq!(a.0, 0);
    assert_eq!(d.0, 1);
}

#[test]
fn data_then_alias_of_same_name_is_rejected_with_original_span() {
    let mut datas = Datas::default();
    datas.declare_data(named("Foo", 10, 13), scope(0), &Vec::new()).unwrap();
    let err = datas.declare_alias(ident("Foo"), Span::new(20, 23), scope(1)).unwrap_err();
    assert_eq!(
        err,
        Error::DuplicateTypeName {
            name: ident("Foo"),
            first: Span::new(10, 13),
            second: Span::new(20, 23),
        }
    );
}

#[test]
fn alias_then_data_of_same_name_is_rejected() {
    let mut datas = Datas::default();
    datas.declare_alias(ident("Foo"), Span::new(1, 4), scope(0)).unwrap();
    let err = datas.declare_data(named("Foo", 7, 10), scope(0), &Vec::new()).unwrap_err();
    assert_eq!(
        err,
        Error::DuplicateTypeName {
            name: ident("Foo"),
            first: Span::new(1, 4),
            second: Span::new(7, 10),
        }
    );
}

#[test]
fn duplicate_constructor_is_reported_and_first_owner_kept() {
    let mut datas = Datas::default();
    let a = datas.declare_data(named("A", 1, 1), scope(0), &Vec::new()).unwrap();
    let b = datas.declare_data(named("B", 2, 2), scope(0), &Vec::new()).unwrap();
    assert!(datas.define_data(a, Span::new(1, 1), data_body("A", vec![("Mk", 5, 0)])).is_ok());
    let errs = datas
        .define_data(b, Span::new(2, 2), data_body("B", vec![("Mk", 9, 1)]))
        .unwrap_err();
    assert_eq!(
        errs,
        vec![Error::DuplicateConsName {
            name: ident("Mk"),
            first: Span::new(5, 5),
            second: Span::new(9, 9),
        }]
    );
    // The original mapping is retained: `Mk` still resolves to `A`.
    assert_eq!(datas.lookup_cons(ident("Mk")), Some(a));
    // The colliding body was still stored.
    assert_eq!(datas.get_data(b).cons.len(), 1);
}

#[test]
fn colliding_constructor_does_not_block_the_rest() {
    let mut datas = Datas::default();
    let a = datas.declare_data(named("A", 1, 1), scope(0), &Vec::new()).unwrap();
    let b = datas.declare_data(named("B", 2, 2), scope(0), &Vec::new()).unwrap();
    assert!(datas.define_data(a, Span::new(1, 1), data_body("A", vec![("Mk", 5, 0)])).is_ok());
    let errs = datas
        .define_data(b, Span::new(2, 2), data_body("B", vec![("Mk", 9, 1), ("Other", 11, 2)]))
        .unwrap_err();
    assert_eq!(errs.len(), 1);
    assert_eq!(datas.lookup_cons(ident("Other")), Some(b));
}

#[test]
fn get_data_returns_exactly_the_stored_body() {
    let mut datas = Datas::default();
    let a = datas.declare_data(named("Pair", 1, 1), scope(3), &Vec::new()).unwrap();
    let body = data_body("Pair", vec![("First", 2, 7), ("Second", 3, 8)]);
    assert!(datas.define_data(a, Span::new(1, 1), body).is_ok());
    let stored = datas.get_data(a);
    assert_eq!(stored.name.item, ident("Pair"));
    assert_eq!(stored.gen_scope, scope(0));
    assert_eq!(datas.name_gen_scope(ident("Pair")), scope(3));
    assert_eq!(stored.cons.len(), 2);
    assert_eq!(stored.cons[0].0.item, ident("First"));
    assert_eq!(stored.cons[0].1, TyId(7));
    assert_eq!(stored.cons[1].0.item, ident("Second"));
    assert_eq!(stored.cons[1].1, TyId(8));
}

#[test]
fn missing_go_lang_item_is_reported_once() {
    let mut datas = Datas::default();
    datas.declare_data(named("A", 1, 1), scope(0), &Vec::new()).unwrap();
    let errs = datas.check_lang_items();
    assert_eq!(errs, vec![Error::MissingLangItem { name: ident("go") }]);
}

#[test]
fn lang_go_attribute_registers_the_lang_item() {
    let mut datas = Datas::default();
    let attrs = vec![Attr { name: ident("lang"), args: Some(vec![ident("go")]) }];
    let id = datas.declare_data(named("Go", 1, 1), scope(0), &attrs).unwrap();
    assert_eq!(datas.lang.go, Some(id));
    assert_eq!(datas.check_lang_items(), Vec::new());
}

#[test]
fn lang_attribute_without_go_argument_registers_nothing() {
    let mut datas = Datas::default();
    let attrs = vec![
        Attr { name: ident("lang"), args: Some(vec![ident("io")]) },
        Attr { name: ident("doc"), args: None },
    ];
    datas.declare_data(named("Io", 1, 1), scope(0), &attrs).unwrap();
    assert_eq!(datas.lang.go, None);
    assert_eq!(datas.check_lang_items().len(), 1);
}

#[test]
fn any_lang_attribute_carrying_go_registers_the_lang_item() {
    let mut datas = Datas::default();
    let attrs = vec![
        Attr { name: ident("lang"), args: Some(vec![ident("io")]) },
        Attr { name: ident("lang"), args: Some(vec![ident("go")]) },
    ];
    let id = datas.declare_data(named("Two", 1, 1), scope(0), &attrs).unwrap();
    assert_eq!(datas.lang.go, Some(id));
    assert_eq!(datas.check_lang_items(), Vec::new());
}

#[test]
fn later_go_declaration_wins() {
    let mut datas = Datas::default();
    let attrs = vec![Attr { name: ident("lang"), args: Some(vec![ident("go")]) }];
    let first = datas.declare_data(named("GoA", 1, 1), scope(0), &attrs).unwrap();
    let second = datas.declare_data(named("GoB", 2, 2), scope(0), &attrs).unwrap();
    assert_ne!(first, second);
    assert_eq!(datas.lang.go, Some(second));
}

#[test]
fn lookups_are_kind_exact() {
    let mut datas = Datas::default();
    let d = datas.declare_data(named("D", 1, 1), scope(0), &Vec::new()).unwrap();
    let a = datas.declare_alias(ident("Al"), Span::new(2, 2), scope(1)).unwrap();
    assert_eq!(datas.lookup_data(ident("D")), Some(d));
    assert_eq!(datas.lookup_alias(ident("D")), None);
    assert_eq!(datas.lookup_alias(ident("Al")), Some(a));
    assert_eq!(datas.lookup_data(ident("Al")), None);
    assert_eq!(datas.lookup_data(ident("Absent")), None);
    assert_eq!(datas.lookup_cons(ident("Absent")), None);
}

#[test]
fn name_gen_scope_returns_the_declared_scope() {
    let mut datas = Datas::default();
    datas.declare_data(named("D", 1, 1), scope(4), &Vec::new()).unwrap();
    datas.declare_alias(ident("Al"), Span::new(2, 2), scope(9)).unwrap();
    assert_eq!(datas.name_gen_scope(ident("D")), scope(4));
    assert_eq!(datas.name_gen_scope(ident("Al")), scope(9));
}

#[test]
fn spans_are_recorded_at_declaration() {
    let mut datas = Datas::default();
    let d = datas.declare_data(named("D", 5, 9), scope(0), &Vec::new()).unwrap();
    let a = datas.declare_alias(ident("Al"), Span::new(11, 13), scope(0)).unwrap();
    assert_eq!(datas.get_data_span(d), Span::new(5, 9));
    assert_eq!(datas.get_alias_span(a), Span::new(11, 13));
}

#[test]
fn alias_body_is_retrievable_once_defined() {
    let mut datas = Datas::default();
    let a = datas.declare_alias(ident("Al"), Span::new(1, 1), scope(0)).unwrap();
    datas.define_alias(
        a,
        Alias { name: ident("Al"), attr: Vec::new(), gen_scope: scope(0), ty: TyId(42) },
    );
    let stored = datas.get_alias(a).unwrap();
    assert_eq!(stored.name, ident("Al"));
    assert_eq!(stored.ty, TyId(42));
}
