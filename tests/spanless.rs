use copy_paste::bindings::{Binding, bindings, bindings_compatible};
use copy_paste::spanless_eq::SpanlessEq;
use copy_paste::spanless_hash::{hash_block, hash_expr};
use copy_paste::{Arm, BinOp, Block, Expr, ExprKind, MatchSource, Pat, Span, Stmt, UnOp};

fn sp(lo: u32) -> Span {
    Span { lo, hi: lo + 1, from_expansion: false }
}

fn e(id: u64, kind: ExprKind) -> Expr {
    Expr { id, span: sp(id as u32), kind }
}

fn path(id: u64, x: u64) -> Expr {
    e(id, ExprKind::Path(x))
}

fn lit(id: u64, v: u64) -> Expr {
    e(id, ExprKind::Lit(v))
}

fn add(id: u64, a: Expr, b: Expr) -> Expr {
    e(id, ExprKind::Binary(BinOp::Add, Box::new(a), Box::new(b)))
}

fn call(id: u64, f: u64, args: Vec<Expr>) -> Expr {
    e(id, ExprKind::Call(Box::new(path(id + 100, f)), args))
}

fn let_block(name: u64, init: u64, tail: u64, lo: u32) -> Block {
    Block {
        stmts: vec![Stmt::Let(Pat::Ident(name, Some(1), None), Some(lit(lo as u64, init)))],
        expr: Some(Box::new(path(lo as u64 + 1, tail))),
        span: sp(lo),
    }
}

#[test]
fn spans_and_ids_do_not_matter() {
    let a = add(1, path(2, 10), lit(3, 4));
    let b = add(21, path(22, 10), lit(23, 4));
    assert!(SpanlessEq::new().eq_expr(&a, &b));
    assert_eq!(hash_expr(&a), hash_expr(&b));
}

#[test]
fn comparison_is_symmetric() {
    let pairs = vec![
        (add(1, path(2, 10), lit(3, 4)), add(4, path(5, 10), lit(6, 4))),
        (add(1, path(2, 10), lit(3, 4)), add(4, lit(5, 4), path(6, 10))),
        (lit(1, 1), path(2, 1)),
        (call(1, 7, vec![lit(2, 1)]), call(3, 7, vec![lit(4, 1)])),
    ];
    for (a, b) in &pairs {
        for cmp in [SpanlessEq::new(), SpanlessEq::new().ignore_fn()] {
            assert_eq!(cmp.eq_expr(a, b), cmp.eq_expr(b, a));
        }
    }
}

#[test]
fn equivalent_fragments_hash_alike() {
    let a = let_block(10, 1, 10, 1);
    let b = let_block(11, 1, 11, 20);
    assert!(SpanlessEq::new().eq_block(&a, &b));
    assert_eq!(hash_block(&a), hash_block(&b));
}

#[test]
fn an_exact_copy_is_equivalent() {
    let a = e(1, ExprKind::Unary(UnOp::Not, Box::new(add(2, path(3, 10), lit(4, 1)))));
    let b = e(1, ExprKind::Unary(UnOp::Not, Box::new(add(2, path(3, 10), lit(4, 1)))));
    assert!(SpanlessEq::new().eq_expr(&a, &b));
    assert!(SpanlessEq::new().ignore_fn().eq_expr(&a, &b));
    let c = let_block(10, 1, 10, 1);
    let d = let_block(10, 1, 10, 1);
    assert!(SpanlessEq::new().eq_block(&c, &d));
}

#[test]
fn unknown_nodes_are_never_equivalent() {
    let a = e(1, ExprKind::Other);
    let b = e(1, ExprKind::Other);
    assert!(!SpanlessEq::new().eq_expr(&a, &b));
    let item = Block { stmts: vec![Stmt::Item], expr: None, span: sp(1) };
    let item2 = Block { stmts: vec![Stmt::Item], expr: None, span: sp(1) };
    assert!(!SpanlessEq::new().eq_block(&item, &item2));
}

#[test]
fn ignoring_calls_makes_calls_unequal() {
    let a = call(1, 7, vec![]);
    let b = call(2, 7, vec![]);
    assert!(SpanlessEq::new().eq_expr(&a, &b));
    assert!(!SpanlessEq::new().ignore_fn().eq_expr(&a, &b));
    let m1 = e(3, ExprKind::MethodCall(9, vec![path(4, 1)]));
    let m2 = e(5, ExprKind::MethodCall(9, vec![path(6, 1)]));
    assert!(SpanlessEq::new().eq_expr(&m1, &m2));
    assert!(!SpanlessEq::new().ignore_fn().eq_expr(&m1, &m2));
}

#[test]
fn free_names_are_compared_by_name() {
    assert!(!SpanlessEq::new().eq_expr(&path(1, 10), &path(2, 11)));
    // A local and a free name with the same symbol differ.
    let a = let_block(10, 1, 10, 1);
    let b = let_block(11, 1, 10, 20);
    assert!(!SpanlessEq::new().eq_block(&a, &b));
}

#[test]
fn different_structure_differs() {
    assert!(!SpanlessEq::new().eq_expr(&lit(1, 1), &lit(2, 2)));
    let a = add(1, path(2, 10), lit(3, 4));
    let b = e(4, ExprKind::Binary(BinOp::Sub, Box::new(path(5, 10)), Box::new(lit(6, 4))));
    assert!(!SpanlessEq::new().eq_expr(&a, &b));
    let t1 = e(7, ExprKind::Tuple(vec![lit(8, 1)]));
    let t2 = e(9, ExprKind::Tuple(vec![lit(10, 1), lit(11, 1)]));
    assert!(!SpanlessEq::new().eq_expr(&t1, &t2));
    let f1 = e(12, ExprKind::Field(Box::new(path(13, 1)), 5));
    let f2 = e(14, ExprKind::Field(Box::new(path(15, 1)), 6));
    assert!(!SpanlessEq::new().eq_expr(&f1, &f2));
}

#[test]
fn nested_match_arms_bind_by_position() {
    // match v { Some(x) => x } against match v { Some(y) => y }
    let m = |id: u64, name: u64| {
        let arm = Arm {
            pats: vec![Pat::TupleStruct(3, Some(vec![Pat::Ident(name, Some(1), None)]))],
            body: path(id + 1, name),
        };
        e(id, ExprKind::Match(Box::new(path(id + 2, 50)), vec![arm], MatchSource::Normal))
    };
    let a = m(1, 10);
    let b = m(10, 11);
    assert!(SpanlessEq::new().eq_expr(&a, &b));
    assert_eq!(hash_expr(&a), hash_expr(&b));
}

#[test]
fn bindings_in_order_first_occurrence_wins() {
    let p = Pat::Tuple(vec![
        Pat::Ident(1, Some(10), Some(Box::new(Pat::Ref(Box::new(Pat::Ident(2, Some(20), None)))))),
        Pat::Struct(5, vec![7, 8], vec![Pat::Ident(3, Some(30), None), Pat::Wild], true),
        Pat::Slice(
            vec![Pat::Lit(4)],
            Some(Box::new(Pat::Ident(1, Some(99), None))),
            vec![Pat::Box(Box::new(Pat::Ident(4, None, None)))],
        ),
        Pat::Range(1, 9),
        Pat::Path(6),
        Pat::TupleStruct(6, None),
    ]);
    let bs = bindings(&p);
    assert_eq!(
        bs,
        vec![
            Binding { name: 1, ty: Some(10) },
            Binding { name: 2, ty: Some(20) },
            Binding { name: 3, ty: Some(30) },
            Binding { name: 4, ty: None },
        ]
    );
}

#[test]
fn binding_compatibility() {
    let a = vec![Binding { name: 1, ty: Some(10) }, Binding { name: 2, ty: Some(20) }];
    let b = vec![Binding { name: 3, ty: Some(10) }, Binding { name: 4, ty: Some(20) }];
    assert!(bindings_compatible(&a, &b));
    assert!(bindings_compatible(&b, &a));
    let c = vec![Binding { name: 1, ty: Some(10) }];
    assert!(!bindings_compatible(&a, &c));
    let d = vec![Binding { name: 1, ty: Some(11) }, Binding { name: 2, ty: Some(20) }];
    assert!(!bindings_compatible(&a, &d));
    // Same types by position, but one name bound to two types.
    let e1 = vec![Binding { name: 1, ty: Some(10) }, Binding { name: 2, ty: Some(20) }];
    let e2 = vec![Binding { name: 2, ty: Some(10) }, Binding { name: 1, ty: Some(20) }];
    assert!(!bindings_compatible(&e1, &e2));
    let unresolved = vec![Binding { name: 1, ty: None }];
    assert!(!bindings_compatible(&unresolved, &unresolved));
    assert!(bindings_compatible(&vec![], &vec![]));
}

#[test]
fn hash_reads_the_structure() {
    assert_ne!(hash_expr(&lit(1, 1)), hash_expr(&lit(1, 2)));
    assert_ne!(hash_expr(&path(1, 10)), hash_expr(&path(1, 11)));
    let a = add(1, path(2, 10), lit(3, 4));
    let b = e(4, ExprKind::Binary(BinOp::Mul, Box::new(path(5, 10)), Box::new(lit(6, 4))));
    assert_ne!(hash_expr(&a), hash_expr(&b));
}
