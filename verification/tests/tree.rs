use tao_analysis::hir::{
    Binding, ConMeta, Expr, InferMeta, Node, Pat,
};
use tao_analysis::syntax::{ConEffectId, ConProcId, ConTyId, Ident, Literal, Span, SrcNode, TyVar};

fn ident(s: &str) -> Ident {
    Ident::new(s.to_string())
}

fn cm() -> ConMeta {
    ConMeta { ty: ConTyId(0) }
}

fn con_expr(e: Expr<ConMeta>) -> Node<Expr<ConMeta>, ConMeta> {
    Node::new(e, cm())
}

fn local(name: &str) -> Node<Expr<ConMeta>, ConMeta> {
    con_expr(Expr::Local(ident(name)))
}

fn con_ident(name: &str) -> Node<Ident, ConMeta> {
    Node::new(ident(name), cm())
}

fn im(n: usize) -> InferMeta {
    InferMeta { span: Span::new(0, 0), ty: TyVar(n) }
}

fn infer_wildcard(name: &str, n: usize) -> Node<Binding<InferMeta>, InferMeta> {
    Node::new(Binding::wildcard(SrcNode::new(ident(name), Span::new(0, 0))), im(n))
}

fn con_wildcard(name: &str) -> Node<Binding<ConMeta>, ConMeta> {
    Node::new(Binding::wildcard(SrcNode::new(ident(name), Span::new(0, 0))), cm())
}

#[test]
fn free_variable_reported_once_per_read_without_deduplication() {
    let e = Expr::Apply(local("x"), local("x"));
    let r = e.required_locals(Vec::new());
    assert_eq!(r, vec![ident("x"), ident("x")]);
}

#[test]
fn function_parameter_is_not_free_in_its_body() {
    let body = con_expr(Expr::Tuple(vec![local("x"), local("y"), local("z")]));
    let f = Expr::Func(con_ident("z"), body);
    let r = f.required_locals(Vec::new());
    assert_eq!(r, vec![ident("x"), ident("y")]);
}

#[test]
fn caller_supplied_names_are_already_available() {
    let e = Expr::Apply(local("x"), local("y"));
    let r = e.required_locals(vec![ident("x")]);
    assert_eq!(r, vec![ident("y")]);
}

#[test]
fn match_arm_bindings_cover_the_arm_body_only() {
    let arm_body = con_expr(Expr::Tuple(vec![local("w"), local("q")]));
    let m = Expr::Match(false, local("v"), vec![(con_wildcard("w"), arm_body)]);
    let r = m.required_locals(Vec::new());
    assert_eq!(r, vec![ident("v"), ident("q")]);
    // `w` is free again outside the arm.
    let after = Expr::Apply(con_expr(m), local("w"));
    let r2 = after.required_locals(Vec::new());
    assert_eq!(r2, vec![ident("v"), ident("q"), ident("w")]);
}

#[test]
fn handler_continuation_binder_covers_the_handler_body() {
    let h = Expr::Handle {
        expr: local("a"),
        eff: ConEffectId(0),
        send: con_ident("k"),
        recv: con_expr(Expr::Apply(local("k"), local("b"))),
    };
    let r = h.required_locals(Vec::new());
    assert_eq!(r, vec![ident("a"), ident("b")]);
}

#[test]
fn globals_literals_and_errors_contribute_no_free_names() {
    let e = Expr::Tuple(vec![
        con_expr(Expr::Error),
        con_expr(Expr::Literal(Literal::Nat(3))),
        con_expr(Expr::Global(ConProcId(7))),
        local("x"),
    ]);
    let r = e.required_locals(Vec::new());
    assert_eq!(r, vec![ident("x")]);
}

#[test]
fn basin_and_suspend_recurse_into_their_bodies() {
    let e = Expr::Basin(
        ConEffectId(0),
        con_expr(Expr::Suspend(ConEffectId(1), local("x"))),
    );
    assert_eq!(e.required_locals(Vec::new()), vec![ident("x")]);
}

#[test]
fn binding_tys_visit_capture_before_descending() {
    let inner = vec![infer_wildcard("a", 1), infer_wildcard("b", 2)];
    let whole = Node::new(
        Binding {
            pat: SrcNode::new(Pat::Tuple(inner), Span::new(0, 0)),
            name: Some(SrcNode::new(ident("whole"), Span::new(0, 0))),
        },
        im(0),
    );
    let tys = whole.get_binding_tys();
    let got: Vec<(Ident, TyVar)> = tys.into_iter().map(|(n, t)| (n.item, t)).collect();
    assert_eq!(
        got,
        vec![(ident("whole"), TyVar(0)), (ident("a"), TyVar(1)), (ident("b"), TyVar(2))]
    );
}

#[test]
fn prefix_list_pattern_with_tail_binds_elements_then_tail() {
    let b = Node::new(
        Binding::from_pat(SrcNode::new(
            Pat::ListFront(
                vec![infer_wildcard("a", 1), infer_wildcard("b", 2)],
                Some(infer_wildcard("rest", 3)),
            ),
            Span::new(0, 0),
        )),
        im(0),
    );
    let tys = b.get_binding_tys();
    let got: Vec<Ident> = tys.into_iter().map(|(n, _)| n.item).collect();
    assert_eq!(got, vec![ident("a"), ident("b"), ident("rest")]);
}

#[test]
fn prefix_list_pattern_without_tail_binds_only_the_elements() {
    let b = Node::new(
        Binding::from_pat(SrcNode::new(
            Pat::ListFront(vec![infer_wildcard("a", 1), infer_wildcard("b", 2)], None),
            Span::new(0, 0),
        )),
        im(0),
    );
    let tys = b.get_binding_tys();
    let got: Vec<Ident> = tys.into_iter().map(|(n, _)| n.item).collect();
    assert_eq!(got, vec![ident("a"), ident("b")]);
}

#[test]
fn unit_and_from_pat_bind_nothing() {
    let unit = Node::new(Binding::<InferMeta>::unit(Span::new(0, 0)), im(0));
    assert!(unit.get_binding_tys().is_empty());
    let plain = Node::new(
        Binding::from_pat(SrcNode::new(Pat::<InferMeta>::Wildcard, Span::new(0, 0))),
        im(0),
    );
    assert!(plain.get_binding_tys().is_empty());
}
