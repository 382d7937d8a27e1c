use copy_paste::copies::{if_sequence, lint_match_arms};
use copy_paste::{
    Arm, BinOp, Block, CopyAndPaste, Expr, ExprKind, Finding, Lint, MatchSource, Pat, Span, Stmt,
};

const A: u64 = 1;
const B: u64 = 2;
const X: u64 = 3;
const Y: u64 = 4;
const F: u64 = 5;
const G: u64 = 6;
const V: u64 = 7;
const SOME: u64 = 8;
const FOO: u64 = 9;
const BAR: u64 = 10;
const BAZ: u64 = 11;
const COND: u64 = 12;
const U32: u64 = 100;
const U64: u64 = 101;

struct Tree {
    next: u64,
    expansion: bool,
}

impl Tree {
    fn new() -> Tree {
        Tree { next: 1, expansion: false }
    }

    fn span(&mut self) -> Span {
        let lo = self.next as u32 * 10;
        self.next += 1;
        Span { lo, hi: lo + 5, from_expansion: self.expansion }
    }

    fn expr(&mut self, kind: ExprKind) -> Expr {
        let span = self.span();
        Expr { id: self.next, span, kind }
    }

    fn lit(&mut self, v: u64) -> Expr {
        self.expr(ExprKind::Lit(v))
    }

    fn path(&mut self, x: u64) -> Expr {
        self.expr(ExprKind::Path(x))
    }

    fn eq(&mut self, l: u64, r: u64) -> Expr {
        let l = self.path(l);
        let r = self.path(r);
        self.expr(ExprKind::Binary(BinOp::Eq, Box::new(l), Box::new(r)))
    }

    fn call0(&mut self, f: u64) -> Expr {
        let callee = self.path(f);
        self.expr(ExprKind::Call(Box::new(callee), vec![]))
    }

    fn block_of(&mut self, e: Expr) -> Block {
        let span = self.span();
        Block { stmts: vec![], expr: Some(Box::new(e)), span }
    }

    fn if_(&mut self, c: Expr, t: Block, e: Option<Expr>) -> Expr {
        self.expr(ExprKind::If(Box::new(c), Box::new(t), e.map(Box::new)))
    }

    fn block_expr(&mut self, b: Block) -> Expr {
        self.expr(ExprKind::Block(Box::new(b)))
    }
}

fn only(fs: Vec<Finding>) -> Finding {
    assert_eq!(fs.len(), 1);
    fs[0]
}

#[test]
fn same_condition_twice_is_reported_at_the_second() {
    // if a == b { x() } else if a == b { y() }
    let mut t = Tree::new();
    let c1 = t.eq(A, B);
    let c1_span = c1.span;
    let x = t.call0(X);
    let b1 = t.block_of(x);
    let c2 = t.eq(A, B);
    let c2_span = c2.span;
    let y = t.call0(Y);
    let b2 = t.block_of(y);
    let inner = t.if_(c2, b2, None);
    let outer = t.if_(c1, b1, Some(inner));
    let f = only(CopyAndPaste.check_expr(&outer, None));
    assert_eq!(f.lint, Lint::IfsSameCond);
    assert_eq!(f.span, c2_span);
    assert_eq!(f.original, c1_span);
}

#[test]
fn same_then_and_else_blocks_are_reported() {
    // if cond { 42 } else { 42 }
    let mut t = Tree::new();
    let c = t.path(COND);
    let l1 = t.lit(42);
    let then_b = t.block_of(l1);
    let then_span = then_b.span;
    let l2 = t.lit(42);
    let else_b = t.block_of(l2);
    let else_span = else_b.span;
    let else_e = t.block_expr(else_b);
    let e = t.if_(c, then_b, Some(else_e));
    let f = only(CopyAndPaste.check_expr(&e, None));
    assert_eq!(f.lint, Lint::IfSameThenElse);
    assert_eq!(f.span, else_span);
    assert_eq!(f.original, then_span);
}

fn arm(pat: Pat, body: Expr) -> Arm {
    Arm { pats: vec![pat], body }
}

#[test]
fn match_arms_with_the_same_body_are_reported() {
    // match v { Foo => f(), Bar => g(), Baz => f() }
    let mut t = Tree::new();
    let v = t.path(V);
    let f1 = t.call0(F);
    let f1_span = f1.span;
    let g = t.call0(G);
    let f2 = t.call0(F);
    let f2_span = f2.span;
    let arms = vec![arm(Pat::Path(FOO), f1), arm(Pat::Path(BAR), g), arm(Pat::Path(BAZ), f2)];
    let m = t.expr(ExprKind::Match(Box::new(v), arms, MatchSource::Normal));
    let f = only(CopyAndPaste.check_expr(&m, None));
    assert_eq!(f.lint, Lint::MatchSameArms);
    assert_eq!(f.span, f2_span);
    assert_eq!(f.original, f1_span);
}

#[test]
fn arms_returning_their_binding_are_reported() {
    // match v { Some(x) => x, Some(y) => y }, both bindings of one type
    let mut t = Tree::new();
    let v = t.path(V);
    let bx = t.path(X);
    let bx_span = bx.span;
    let by = t.path(Y);
    let by_span = by.span;
    let px = Pat::TupleStruct(SOME, Some(vec![Pat::Ident(X, Some(U32), None)]));
    let py = Pat::TupleStruct(SOME, Some(vec![Pat::Ident(Y, Some(U32), None)]));
    let m = t.expr(ExprKind::Match(Box::new(v), vec![arm(px, bx), arm(py, by)], MatchSource::Normal));
    let f = only(CopyAndPaste.check_expr(&m, None));
    assert_eq!(f.lint, Lint::MatchSameArms);
    assert_eq!(f.span, by_span);
    assert_eq!(f.original, bx_span);
}

#[test]
fn arms_binding_a_name_to_different_types_are_not_reported() {
    // match v { A(x): u32 => x, B(x): u64 => x }
    let mut t = Tree::new();
    let v = t.path(V);
    let b1 = t.path(X);
    let b2 = t.path(X);
    let pa = Pat::TupleStruct(A, Some(vec![Pat::Ident(X, Some(U32), None)]));
    let pb = Pat::TupleStruct(B, Some(vec![Pat::Ident(X, Some(U64), None)]));
    let m = t.expr(ExprKind::Match(Box::new(v), vec![arm(pa, b1), arm(pb, b2)], MatchSource::Normal));
    assert!(CopyAndPaste.check_expr(&m, None).is_empty());
    assert_eq!(lint_match_arms(&m), None);
}

#[test]
fn generated_code_is_not_reported() {
    // if a { 1 } else { 1 }, produced by a macro
    let mut t = Tree::new();
    t.expansion = true;
    let c = t.path(A);
    let l1 = t.lit(1);
    let then_b = t.block_of(l1);
    let l2 = t.lit(1);
    let else_b = t.block_of(l2);
    let else_e = t.block_expr(else_b);
    let e = t.if_(c, then_b, Some(else_e));
    assert!(CopyAndPaste.check_expr(&e, None).is_empty());
}

#[test]
fn an_else_if_is_not_scanned_on_its_own() {
    // if a { 1 } else if b { 2 } else { 2 }: the inner `if` is the parent's else
    let mut t = Tree::new();
    let ca = t.path(A);
    let l1 = t.lit(1);
    let b1 = t.block_of(l1);
    let cb = t.path(B);
    let l2 = t.lit(2);
    let b2 = t.block_of(l2);
    let l3 = t.lit(2);
    let b3 = t.block_of(l3);
    let e3 = t.block_expr(b3);
    let inner = t.if_(cb, b2, Some(e3));
    let outer = t.if_(ca, b1, Some(inner));
    let inner_ref = match &outer.kind {
        ExprKind::If(_, _, Some(e)) => &**e,
        _ => unreachable!(),
    };
    assert!(CopyAndPaste.check_expr(inner_ref, Some(&outer)).is_empty());
    // Scanned from the top, the chain is reported once.
    let f = only(CopyAndPaste.check_expr(&outer, None));
    assert_eq!(f.lint, Lint::IfSameThenElse);
    // The same `if` visited without that parent is scanned.
    assert_eq!(CopyAndPaste.check_expr(inner_ref, None).len(), 1);
}

#[test]
fn calls_in_conditions_are_never_the_same_condition() {
    // if f() { 1 } else if f() { 2 }
    let mut t = Tree::new();
    let c1 = t.call0(F);
    let l1 = t.lit(1);
    let b1 = t.block_of(l1);
    let c2 = t.call0(F);
    let l2 = t.lit(2);
    let b2 = t.block_of(l2);
    let inner = t.if_(c2, b2, None);
    let outer = t.if_(c1, b1, Some(inner));
    assert!(CopyAndPaste.check_expr(&outer, None).is_empty());
}

#[test]
fn if_sequence_lists_conditions_and_blocks() {
    // if a { 1 } else if b { 2 } else { 3 }
    let mut t = Tree::new();
    let ca = t.path(A);
    let l1 = t.lit(1);
    let b1 = t.block_of(l1);
    let cb = t.path(B);
    let l2 = t.lit(2);
    let b2 = t.block_of(l2);
    let l3 = t.lit(3);
    let b3 = t.block_of(l3);
    let s3 = b3.span;
    let e3 = t.block_expr(b3);
    let inner = t.if_(cb, b2, Some(e3));
    let outer = t.if_(ca, b1, Some(inner));
    let (conds, blocks) = if_sequence(&outer);
    assert_eq!(conds.len(), 2);
    assert_eq!(blocks.len(), 3);
    assert_eq!(blocks[2].span, s3);
    // An `if` without `else` gives one condition and one block.
    let c = t.path(A);
    let l = t.lit(1);
    let b = t.block_of(l);
    let lone = t.if_(c, b, None);
    let (conds, blocks) = if_sequence(&lone);
    assert_eq!((conds.len(), blocks.len()), (1, 1));
    // Something else gives nothing.
    let other = t.lit(1);
    let (conds, blocks) = if_sequence(&other);
    assert_eq!((conds.len(), blocks.len()), (0, 0));
}

#[test]
fn a_match_lowered_from_a_loop_is_not_scanned() {
    let mut t = Tree::new();
    let v = t.path(V);
    let f1 = t.call0(F);
    let f2 = t.call0(F);
    let arms = vec![arm(Pat::Path(FOO), f1), arm(Pat::Path(BAZ), f2)];
    let m = t.expr(ExprKind::Match(Box::new(v), arms, MatchSource::ForLoopDesugar));
    assert!(CopyAndPaste.check_expr(&m, None).is_empty());
}

#[test]
fn unresolved_binding_types_suppress_the_finding() {
    let mut t = Tree::new();
    let v = t.path(V);
    let b1 = t.path(X);
    let b2 = t.path(X);
    let pa = Pat::TupleStruct(A, Some(vec![Pat::Ident(X, None, None)]));
    let pb = Pat::TupleStruct(B, Some(vec![Pat::Ident(X, None, None)]));
    let m = t.expr(ExprKind::Match(Box::new(v), vec![arm(pa, b1), arm(pb, b2)], MatchSource::Normal));
    assert!(CopyAndPaste.check_expr(&m, None).is_empty());
}

#[test]
fn a_chain_can_report_both_blocks_and_conditions() {
    // if a == b { 1 } else if a == b { 1 }: blocks first, then conditions
    let mut t = Tree::new();
    let c1 = t.eq(A, B);
    let l1 = t.lit(1);
    let b1 = t.block_of(l1);
    let c2 = t.eq(A, B);
    let l2 = t.lit(1);
    let b2 = t.block_of(l2);
    let inner = t.if_(c2, b2, None);
    let outer = t.if_(c1, b1, Some(inner));
    let fs = CopyAndPaste.check_expr(&outer, None);
    assert_eq!(fs.len(), 2);
    assert_eq!(fs[0].lint, Lint::IfSameThenElse);
    assert_eq!(fs[1].lint, Lint::IfsSameCond);
}

#[test]
fn lets_with_other_names_make_the_same_block() {
    // if c { let a = 1; a } else { let b = 1; b }
    let mut t = Tree::new();
    let c = t.path(COND);
    let one = t.lit(1);
    let ra = t.path(A);
    let s1 = t.span();
    let b1 = Block { stmts: vec![Stmt::Let(Pat::Ident(A, Some(U32), None), Some(one))], expr: Some(Box::new(ra)), span: s1 };
    let one = t.lit(1);
    let rb = t.path(B);
    let s2 = t.span();
    let b2 = Block { stmts: vec![Stmt::Let(Pat::Ident(B, Some(U32), None), Some(one))], expr: Some(Box::new(rb)), span: s2 };
    let e2 = t.block_expr(b2);
    let e = t.if_(c, b1, Some(e2));
    let f = only(CopyAndPaste.check_expr(&e, None));
    assert_eq!(f.lint, Lint::IfSameThenElse);
    assert_eq!((f.original, f.span), (s1, s2));
}

#[test]
fn lint_names_and_messages() {
    let lints = CopyAndPaste.get_lints();
    assert_eq!(lints, vec![Lint::IfsSameCond, Lint::IfSameThenElse, Lint::MatchSameArms]);
    assert_eq!(Lint::IfsSameCond.name(), "ifs_same_cond");
    assert_eq!(Lint::IfSameThenElse.name(), "if_same_then_else");
    assert_eq!(Lint::MatchSameArms.name(), "match_same_arms");
    assert_eq!(Lint::IfsSameCond.message(), "this `if` has the same condition as a previous if");
    assert_eq!(Lint::IfSameThenElse.message(), "this `if` has identical blocks");
    assert_eq!(Lint::MatchSameArms.message(), "this `match` has identical arm bodies");
    assert_eq!(Lint::MatchSameArms.note(), "same as this");
}
