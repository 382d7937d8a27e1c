use vstd::prelude::*;

use crate::ast::{Arm, Block, Expr, ExprKind, Pat, Stmt};
use crate::spanless_hash::{
    arm_hash, arms_hash, binop_code, block_hash, expr_hash, exprs_hash, mix, opt_expr_hash, pat_hash, pats_hash,
    source_code, stmt_hash, stmts_hash, unop_code,
};
use crate::spanless_eq::{
    arm_eq, arm_names, arms_eq, block_eq, expr_eq, exprs_eq, opt_expr_eq, pat_eq, pats_eq,
    stmt_eq, stmt_names, stmts_eq, stmts_names,
};

verus! {

/// An expression holds no node that the comparison never matches: no node
/// of kind `Other`, no nested item, and, where `ign` is set, no call.
pub open spec fn expr_plain(ign: bool, e: Expr) -> bool
    decreases e,
{
    match e.kind {
        ExprKind::Lit(_) => true,
        ExprKind::Path(_) => true,
        ExprKind::Unary(_, a) => expr_plain(ign, *a),
        ExprKind::Binary(_, a, b) => expr_plain(ign, *a) && expr_plain(ign, *b),
        ExprKind::Call(f, args) => !ign && expr_plain(ign, *f) && exprs_plain(ign, args@),
        ExprKind::MethodCall(_, args) => !ign && exprs_plain(ign, args@),
        ExprKind::Field(a, _) => expr_plain(ign, *a),
        ExprKind::Tuple(args) => exprs_plain(ign, args@),
        ExprKind::If(c, t, el) => {
            expr_plain(ign, *c) && block_plain(ign, *t) && opt_expr_plain(ign, el)
        },
        ExprKind::Block(b) => block_plain(ign, *b),
        ExprKind::Match(s, arms, _) => expr_plain(ign, *s) && arms_plain(ign, arms@),
        ExprKind::Other => false,
    }
}

pub open spec fn opt_expr_plain(ign: bool, e: Option<Box<Expr>>) -> bool
    decreases e,
{
    match e {
        Some(x) => expr_plain(ign, *x),
        None => true,
    }
}

pub open spec fn exprs_plain(ign: bool, es: Seq<Expr>) -> bool
    decreases es,
{
    es.len() == 0 || (expr_plain(ign, es[0]) && exprs_plain(ign, es.drop_first()))
}

pub open spec fn block_plain(ign: bool, b: Block) -> bool
    decreases b,
{
    stmts_plain(ign, b.stmts@) && opt_expr_plain(ign, b.expr)
}

pub open spec fn stmts_plain(ign: bool, ss: Seq<Stmt>) -> bool
    decreases ss,
{
    ss.len() == 0 || (stmt_plain(ign, ss[0]) && stmts_plain(ign, ss.drop_first()))
}

pub open spec fn stmt_plain(ign: bool, s: Stmt) -> bool
    decreases s,
{
    match s {
        Stmt::Let(_, init) => match init {
            Some(e) => expr_plain(ign, e),
            None => true,
        },
        Stmt::Expr(e) => expr_plain(ign, e),
        Stmt::Semi(e) => expr_plain(ign, e),
        Stmt::Item => false,
    }
}

pub open spec fn arms_plain(ign: bool, arms: Seq<Arm>) -> bool
    decreases arms,
{
    arms.len() == 0 || (expr_plain(ign, arms[0].body) && arms_plain(ign, arms.drop_first()))
}

// Symmetry.

/// Pattern equivalence does not depend on the order of its operands.
pub proof fn lemma_pat_eq_symmetric(l: Pat, r: Pat)
    ensures
        pat_eq(l, r) == pat_eq(r, l),
    decreases l,
{
    match (l, r) {
        (Pat::Ident(_, _, Some(a)), Pat::Ident(_, _, Some(b))) => lemma_pat_eq_symmetric(*a, *b),
        (Pat::Struct(_, _, a, _), Pat::Struct(_, _, b, _)) => lemma_pats_eq_symmetric(a@, b@),
        (Pat::TupleStruct(_, Some(a)), Pat::TupleStruct(_, Some(b))) => {
            lemma_pats_eq_symmetric(a@, b@)
        },
        (Pat::Tuple(a), Pat::Tuple(b)) => lemma_pats_eq_symmetric(a@, b@),
        (Pat::Box(a), Pat::Box(b)) => lemma_pat_eq_symmetric(*a, *b),
        (Pat::Ref(a), Pat::Ref(b)) => lemma_pat_eq_symmetric(*a, *b),
        (Pat::Slice(lb, lm, la), Pat::Slice(rb, rm, ra)) => {
            lemma_pats_eq_symmetric(lb@, rb@);
            if let (Some(a), Some(b)) = (lm, rm) {
                lemma_pat_eq_symmetric(*a, *b);
            }
            lemma_pats_eq_symmetric(la@, ra@);
        },
        _ => {},
    }
}

pub proof fn lemma_pats_eq_symmetric(l: Seq<Pat>, r: Seq<Pat>)
    ensures
        pats_eq(l, r) == pats_eq(r, l),
    decreases l,
{
    if l.len() > 0 && r.len() > 0 {
        lemma_pat_eq_symmetric(l[0], r[0]);
        lemma_pats_eq_symmetric(l.drop_first(), r.drop_first());
    }
}

/// Expression equivalence does not depend on the order of its operands:
/// swapping the two expressions and their binding stacks gives the same
/// answer, whatever the options.
pub proof fn lemma_expr_eq_symmetric(ign: bool, el: Seq<u64>, er: Seq<u64>, l: Expr, r: Expr)
    ensures
        expr_eq(ign, el, er, l, r) == expr_eq(ign, er, el, r, l),
    decreases l,
{
    match (l.kind, r.kind) {
        (ExprKind::Unary(_, a), ExprKind::Unary(_, b)) => lemma_expr_eq_symmetric(ign, el, er, *a, *b),
        (ExprKind::Binary(_, a1, a2), ExprKind::Binary(_, b1, b2)) => {
            lemma_expr_eq_symmetric(ign, el, er, *a1, *b1);
            lemma_expr_eq_symmetric(ign, el, er, *a2, *b2);
        },
        (ExprKind::Call(f, a), ExprKind::Call(g, b)) => {
            lemma_expr_eq_symmetric(ign, el, er, *f, *g);
            lemma_exprs_eq_symmetric(ign, el, er, a@, b@);
        },
        (ExprKind::MethodCall(_, a), ExprKind::MethodCall(_, b)) => {
            lemma_exprs_eq_symmetric(ign, el, er, a@, b@)
        },
        (ExprKind::Field(a, _), ExprKind::Field(b, _)) => lemma_expr_eq_symmetric(ign, el, er, *a, *b),
        (ExprKind::Tuple(a), ExprKind::Tuple(b)) => lemma_exprs_eq_symmetric(ign, el, er, a@, b@),
        (ExprKind::If(lc, lt, le), ExprKind::If(rc, rt, re)) => {
            lemma_expr_eq_symmetric(ign, el, er, *lc, *rc);
            lemma_block_eq_symmetric(ign, el, er, *lt, *rt);
            lemma_opt_expr_eq_symmetric(ign, el, er, le, re);
        },
        (ExprKind::Block(a), ExprKind::Block(b)) => lemma_block_eq_symmetric(ign, el, er, *a, *b),
        (ExprKind::Match(ls, la, _), ExprKind::Match(rs, ra, _)) => {
            lemma_expr_eq_symmetric(ign, el, er, *ls, *rs);
            lemma_arms_eq_symmetric(ign, el, er, la@, ra@);
        },
        _ => {},
    }
}

pub proof fn lemma_opt_expr_eq_symmetric(
    ign: bool,
    el: Seq<u64>,
    er: Seq<u64>,
    l: Option<Box<Expr>>,
    r: Option<Box<Expr>>,
)
    ensures
        opt_expr_eq(ign, el, er, l, r) == opt_expr_eq(ign, er, el, r, l),
    decreases l,
{
    if let (Some(a), Some(b)) = (l, r) {
        lemma_expr_eq_symmetric(ign, el, er, *a, *b);
    }
}

pub proof fn lemma_exprs_eq_symmetric(ign: bool, el: Seq<u64>, er: Seq<u64>, l: Seq<Expr>, r: Seq<Expr>)
    ensures
        exprs_eq(ign, el, er, l, r) == exprs_eq(ign, er, el, r, l),
    decreases l,
{
    if l.len() > 0 && r.len() > 0 {
        lemma_expr_eq_symmetric(ign, el, er, l[0], r[0]);
        lemma_exprs_eq_symmetric(ign, el, er, l.drop_first(), r.drop_first());
    }
}

/// Block equivalence does not depend on the order of its operands.
pub proof fn lemma_block_eq_symmetric(ign: bool, el: Seq<u64>, er: Seq<u64>, l: Block, r: Block)
    ensures
        block_eq(ign, el, er, l, r) == block_eq(ign, er, el, r, l),
    decreases l,
{
    lemma_stmts_eq_symmetric(ign, el, er, l.stmts@, r.stmts@);
    lemma_opt_expr_eq_symmetric(
        ign,
        el + stmts_names(l.stmts@),
        er + stmts_names(r.stmts@),
        l.expr,
        r.expr,
    );
}

pub proof fn lemma_stmts_eq_symmetric(ign: bool, el: Seq<u64>, er: Seq<u64>, l: Seq<Stmt>, r: Seq<Stmt>)
    ensures
        stmts_eq(ign, el, er, l, r) == stmts_eq(ign, er, el, r, l),
    decreases l,
{
    if l.len() > 0 && r.len() > 0 {
        lemma_stmt_eq_symmetric(ign, el, er, l[0], r[0]);
        lemma_stmts_eq_symmetric(
            ign,
            el + stmt_names(l[0]),
            er + stmt_names(r[0]),
            l.drop_first(),
            r.drop_first(),
        );
    }
}

pub proof fn lemma_stmt_eq_symmetric(ign: bool, el: Seq<u64>, er: Seq<u64>, l: Stmt, r: Stmt)
    ensures
        stmt_eq(ign, el, er, l, r) == stmt_eq(ign, er, el, r, l),
    decreases l,
{
    match (l, r) {
        (Stmt::Let(lp, li), Stmt::Let(rp, ri)) => {
            lemma_pat_eq_symmetric(lp, rp);
            if let (Some(a), Some(b)) = (li, ri) {
                lemma_expr_eq_symmetric(ign, el, er, a, b);
            }
        },
        (Stmt::Expr(a), Stmt::Expr(b)) => lemma_expr_eq_symmetric(ign, el, er, a, b),
        (Stmt::Semi(a), Stmt::Semi(b)) => lemma_expr_eq_symmetric(ign, el, er, a, b),
        _ => {},
    }
}

pub proof fn lemma_arm_eq_symmetric(ign: bool, el: Seq<u64>, er: Seq<u64>, l: Arm, r: Arm)
    ensures
        arm_eq(ign, el, er, l, r) == arm_eq(ign, er, el, r, l),
    decreases l,
{
    lemma_pats_eq_symmetric(l.pats@, r.pats@);
    lemma_expr_eq_symmetric(ign, el + arm_names(l), er + arm_names(r), l.body, r.body);
}

pub proof fn lemma_arms_eq_symmetric(ign: bool, el: Seq<u64>, er: Seq<u64>, l: Seq<Arm>, r: Seq<Arm>)
    ensures
        arms_eq(ign, el, er, l, r) == arms_eq(ign, er, el, r, l),
    decreases l,
{
    if l.len() > 0 && r.len() > 0 {
        lemma_arm_eq_symmetric(ign, el, er, l[0], r[0]);
        lemma_arms_eq_symmetric(ign, el, er, l.drop_first(), r.drop_first());
    }
}

// Reflexivity.

/// Every pattern is equivalent to itself.
pub proof fn lemma_pat_eq_reflexive(p: Pat)
    ensures
        pat_eq(p, p),
    decreases p,
{
    match p {
        Pat::Ident(_, _, Some(a)) => lemma_pat_eq_reflexive(*a),
        Pat::Struct(_, _, a, _) => lemma_pats_eq_reflexive(a@),
        Pat::TupleStruct(_, Some(a)) => lemma_pats_eq_reflexive(a@),
        Pat::Tuple(a) => lemma_pats_eq_reflexive(a@),
        Pat::Box(a) => lemma_pat_eq_reflexive(*a),
        Pat::Ref(a) => lemma_pat_eq_reflexive(*a),
        Pat::Slice(b, m, a) => {
            lemma_pats_eq_reflexive(b@);
            if let Some(x) = m {
                lemma_pat_eq_reflexive(*x);
            }
            lemma_pats_eq_reflexive(a@);
        },
        _ => {},
    }
}

pub proof fn lemma_pats_eq_reflexive(ps: Seq<Pat>)
    ensures
        pats_eq(ps, ps),
    decreases ps,
{
    if ps.len() > 0 {
        lemma_pat_eq_reflexive(ps[0]);
        lemma_pats_eq_reflexive(ps.drop_first());
    }
}

/// An expression is equivalent to an exact copy of itself under one
/// binding stack, where it holds no node that the comparison never matches.
pub proof fn lemma_expr_eq_reflexive(ign: bool, env: Seq<u64>, e: Expr)
    requires
        expr_plain(ign, e),
    ensures
        expr_eq(ign, env, env, e, e),
    decreases e,
{
    match e.kind {
        ExprKind::Unary(_, a) => lemma_expr_eq_reflexive(ign, env, *a),
        ExprKind::Binary(_, a, b) => {
            lemma_expr_eq_reflexive(ign, env, *a);
            lemma_expr_eq_reflexive(ign, env, *b);
        },
        ExprKind::Call(f, args) => {
            lemma_expr_eq_reflexive(ign, env, *f);
            lemma_exprs_eq_reflexive(ign, env, args@);
        },
        ExprKind::MethodCall(_, args) => lemma_exprs_eq_reflexive(ign, env, args@),
        ExprKind::Field(a, _) => lemma_expr_eq_reflexive(ign, env, *a),
        ExprKind::Tuple(args) => lemma_exprs_eq_reflexive(ign, env, args@),
        ExprKind::If(c, t, el) => {
            lemma_expr_eq_reflexive(ign, env, *c);
            lemma_block_eq_reflexive(ign, env, *t);
            lemma_opt_expr_eq_reflexive(ign, env, el);
        },
        ExprKind::Block(b) => lemma_block_eq_reflexive(ign, env, *b),
        ExprKind::Match(x, arms, _) => {
            lemma_expr_eq_reflexive(ign, env, *x);
            lemma_arms_eq_reflexive(ign, env, arms@);
        },
        _ => {},
    }
}

pub proof fn lemma_opt_expr_eq_reflexive(ign: bool, env: Seq<u64>, e: Option<Box<Expr>>)
    requires
        opt_expr_plain(ign, e),
    ensures
        opt_expr_eq(ign, env, env, e, e),
    decreases e,
{
    if let Some(x) = e {
        lemma_expr_eq_reflexive(ign, env, *x);
    }
}

pub proof fn lemma_exprs_eq_reflexive(ign: bool, env: Seq<u64>, es: Seq<Expr>)
    requires
        exprs_plain(ign, es),
    ensures
        exprs_eq(ign, env, env, es, es),
    decreases es,
{
    if es.len() > 0 {
        lemma_expr_eq_reflexive(ign, env, es[0]);
        lemma_exprs_eq_reflexive(ign, env, es.drop_first());
    }
}

/// A block is equivalent to an exact copy of itself under one binding
/// stack, where it holds no node that the comparison never matches.
pub proof fn lemma_block_eq_reflexive(ign: bool, env: Seq<u64>, b: Block)
    requires
        block_plain(ign, b),
    ensures
        block_eq(ign, env, env, b, b),
    decreases b,
{
    lemma_stmts_eq_reflexive(ign, env, b.stmts@);
    lemma_opt_expr_eq_reflexive(ign, env + stmts_names(b.stmts@), b.expr);
}

pub proof fn lemma_stmts_eq_reflexive(ign: bool, env: Seq<u64>, ss: Seq<Stmt>)
    requires
        stmts_plain(ign, ss),
    ensures
        stmts_eq(ign, env, env, ss, ss),
    decreases ss,
{
    if ss.len() > 0 {
        lemma_stmt_eq_reflexive(ign, env, ss[0]);
        lemma_stmts_eq_reflexive(ign, env + stmt_names(ss[0]), ss.drop_first());
    }
}

pub proof fn lemma_stmt_eq_reflexive(ign: bool, env: Seq<u64>, s: Stmt)
    requires
        stmt_plain(ign, s),
    ensures
        stmt_eq(ign, env, env, s, s),
    decreases s,
{
    match s {
        Stmt::Let(p, init) => {
            lemma_pat_eq_reflexive(p);
            if let Some(e) = init {
                lemma_expr_eq_reflexive(ign, env, e);
            }
        },
        Stmt::Expr(e) => lemma_expr_eq_reflexive(ign, env, e),
        Stmt::Semi(e) => lemma_expr_eq_reflexive(ign, env, e),
        Stmt::Item => {},
    }
}

pub proof fn lemma_arms_eq_reflexive(ign: bool, env: Seq<u64>, arms: Seq<Arm>)
    requires
        arms_plain(ign, arms),
    ensures
        arms_eq(ign, env, env, arms, arms),
    decreases arms,
{
    if arms.len() > 0 {
        lemma_pats_eq_reflexive(arms[0].pats@);
        lemma_expr_eq_reflexive(ign, env + arm_names(arms[0]), arms[0].body);
        assert(arm_eq(ign, env, env, arms[0], arms[0]));
        lemma_arms_eq_reflexive(ign, env, arms.drop_first());
    }
}

// Equivalent fragments hash alike.

/// Equivalent patterns hash alike from any hash state.
pub proof fn lemma_pat_hash(l: Pat, r: Pat, h: u64)
    requires
        pat_eq(l, r),
    ensures
        pat_hash(h, l) == pat_hash(h, r),
    decreases l,
{
    match (l, r) {
        (Pat::Ident(_, _, Some(a)), Pat::Ident(_, _, Some(b))) => lemma_pat_hash(*a, *b, mix(h, 21)),
        (Pat::Struct(p, _, a, _), Pat::Struct(_, _, b, _)) => {
            lemma_pats_hash(a@, b@, mix(mix(h, 22), p))
        },
        (Pat::TupleStruct(p, Some(a)), Pat::TupleStruct(_, Some(b))) => {
            lemma_pats_hash(a@, b@, mix(mix(h, 23), p))
        },
        (Pat::Tuple(a), Pat::Tuple(b)) => lemma_pats_hash(a@, b@, mix(h, 26)),
        (Pat::Box(a), Pat::Box(b)) => lemma_pat_hash(*a, *b, mix(h, 27)),
        (Pat::Ref(a), Pat::Ref(b)) => lemma_pat_hash(*a, *b, mix(h, 28)),
        (Pat::Slice(lb, lm, la), Pat::Slice(rb, rm, ra)) => {
            let h1 = mix(h, 31);
            lemma_pats_hash(lb@, rb@, h1);
            let h2 = pats_hash(h1, lb@);
            let h3 = match lm {
                Some(m) => pat_hash(h2, *m),
                None => h2,
            };
            if let (Some(a), Some(b)) = (lm, rm) {
                lemma_pat_hash(*a, *b, h2);
            }
            lemma_pats_hash(la@, ra@, h3);
        },
        _ => {},
    }
}

pub proof fn lemma_pats_hash(l: Seq<Pat>, r: Seq<Pat>, h: u64)
    requires
        pats_eq(l, r),
    ensures
        pats_hash(h, l) == pats_hash(h, r),
    decreases l,
{
    if l.len() > 0 {
        lemma_pat_hash(l[0], r[0], h);
        lemma_pats_hash(l.drop_first(), r.drop_first(), pat_hash(h, l[0]));
    }
}

/// Equivalent expressions hash alike: from any hash state, each under its
/// own binding stack, whatever the options of the comparison.
pub proof fn lemma_expr_hash(ign: bool, el: Seq<u64>, er: Seq<u64>, l: Expr, r: Expr, h: u64)
    requires
        expr_eq(ign, el, er, l, r),
    ensures
        expr_hash(h, el, l) == expr_hash(h, er, r),
    decreases l,
{
    match (l.kind, r.kind) {
        (ExprKind::Unary(op, a), ExprKind::Unary(_, b)) => {
            lemma_expr_hash(ign, el, er, *a, *b, mix(mix(h, 4), unop_code(op)))
        },
        (ExprKind::Binary(op, a1, a2), ExprKind::Binary(_, b1, b2)) => {
            let h1 = mix(mix(h, 5), binop_code(op));
            lemma_expr_hash(ign, el, er, *a1, *b1, h1);
            lemma_expr_hash(ign, el, er, *a2, *b2, expr_hash(h1, el, *a1));
        },
        (ExprKind::Call(f, a), ExprKind::Call(g, b)) => {
            lemma_expr_hash(ign, el, er, *f, *g, mix(h, 6));
            lemma_exprs_hash(ign, el, er, a@, b@, expr_hash(mix(h, 6), el, *f));
        },
        (ExprKind::MethodCall(name, a), ExprKind::MethodCall(_, b)) => {
            lemma_exprs_hash(ign, el, er, a@, b@, mix(mix(h, 7), name))
        },
        (ExprKind::Field(a, _), ExprKind::Field(b, _)) => {
            lemma_expr_hash(ign, el, er, *a, *b, mix(h, 8))
        },
        (ExprKind::Tuple(a), ExprKind::Tuple(b)) => lemma_exprs_hash(ign, el, er, a@, b@, mix(h, 9)),
        (ExprKind::If(lc, lt, le), ExprKind::If(rc, rt, re)) => {
            let h1 = mix(h, 10);
            lemma_expr_hash(ign, el, er, *lc, *rc, h1);
            let h2 = expr_hash(h1, el, *lc);
            lemma_block_hash(ign, el, er, *lt, *rt, h2);
            lemma_opt_expr_hash(ign, el, er, le, re, block_hash(h2, el, *lt));
        },
        (ExprKind::Block(a), ExprKind::Block(b)) => lemma_block_hash(ign, el, er, *a, *b, mix(h, 11)),
        (ExprKind::Match(ls, la, src), ExprKind::Match(rs, ra, _)) => {
            let h1 = mix(mix(h, 12), source_code(src));
            lemma_expr_hash(ign, el, er, *ls, *rs, h1);
            lemma_arms_hash(ign, el, er, la@, ra@, expr_hash(h1, el, *ls));
        },
        _ => {},
    }
}

pub proof fn lemma_opt_expr_hash(
    ign: bool,
    el: Seq<u64>,
    er: Seq<u64>,
    l: Option<Box<Expr>>,
    r: Option<Box<Expr>>,
    h: u64,
)
    requires
        opt_expr_eq(ign, el, er, l, r),
    ensures
        opt_expr_hash(h, el, l) == opt_expr_hash(h, er, r),
    decreases l,
{
    if let (Some(a), Some(b)) = (l, r) {
        lemma_expr_hash(ign, el, er, *a, *b, mix(h, 14));
    }
}

pub proof fn lemma_exprs_hash(
    ign: bool,
    el: Seq<u64>,
    er: Seq<u64>,
    l: Seq<Expr>,
    r: Seq<Expr>,
    h: u64,
)
    requires
        exprs_eq(ign, el, er, l, r),
    ensures
        exprs_hash(h, el, l) == exprs_hash(h, er, r),
    decreases l,
{
    if l.len() > 0 {
        lemma_expr_hash(ign, el, er, l[0], r[0], h);
        lemma_exprs_hash(ign, el, er, l.drop_first(), r.drop_first(), expr_hash(h, el, l[0]));
    }
}

/// Equivalent blocks hash alike, from any hash state.
pub proof fn lemma_block_hash(ign: bool, el: Seq<u64>, er: Seq<u64>, l: Block, r: Block, h: u64)
    requires
        block_eq(ign, el, er, l, r),
    ensures
        block_hash(h, el, l) == block_hash(h, er, r),
    decreases l,
{
    lemma_stmts_hash(ign, el, er, l.stmts@, r.stmts@, mix(h, 16));
    lemma_opt_expr_hash(
        ign,
        el + stmts_names(l.stmts@),
        er + stmts_names(r.stmts@),
        l.expr,
        r.expr,
        stmts_hash(mix(h, 16), el, l.stmts@),
    );
}

pub proof fn lemma_stmts_hash(
    ign: bool,
    el: Seq<u64>,
    er: Seq<u64>,
    l: Seq<Stmt>,
    r: Seq<Stmt>,
    h: u64,
)
    requires
        stmts_eq(ign, el, er, l, r),
    ensures
        stmts_hash(h, el, l) == stmts_hash(h, er, r),
    decreases l,
{
    if l.len() > 0 {
        lemma_stmt_hash(ign, el, er, l[0], r[0], h);
        lemma_stmts_hash(
            ign,
            el + stmt_names(l[0]),
            er + stmt_names(r[0]),
            l.drop_first(),
            r.drop_first(),
            stmt_hash(h, el, l[0]),
        );
    }
}

pub proof fn lemma_stmt_hash(ign: bool, el: Seq<u64>, er: Seq<u64>, l: Stmt, r: Stmt, h: u64)
    requires
        stmt_eq(ign, el, er, l, r),
    ensures
        stmt_hash(h, el, l) == stmt_hash(h, er, r),
    decreases l,
{
    match (l, r) {
        (Stmt::Let(lp, li), Stmt::Let(rp, ri)) => {
            lemma_pat_hash(lp, rp, mix(h, 17));
            if let (Some(a), Some(b)) = (li, ri) {
                lemma_expr_hash(ign, el, er, a, b, pat_hash(mix(h, 17), lp));
            }
        },
        (Stmt::Expr(a), Stmt::Expr(b)) => lemma_expr_hash(ign, el, er, a, b, mix(h, 18)),
        (Stmt::Semi(a), Stmt::Semi(b)) => lemma_expr_hash(ign, el, er, a, b, mix(h, 19)),
        _ => {},
    }
}

pub proof fn lemma_arms_hash(
    ign: bool,
    el: Seq<u64>,
    er: Seq<u64>,
    l: Seq<Arm>,
    r: Seq<Arm>,
    h: u64,
)
    requires
        arms_eq(ign, el, er, l, r),
    ensures
        arms_hash(h, el, l) == arms_hash(h, er, r),
    decreases l,
{
    if l.len() > 0 {
        assert(arm_eq(ign, el, er, l[0], r[0]));
        lemma_pats_hash(l[0].pats@, r[0].pats@, h);
        let h1 = pats_hash(h, l[0].pats@);
        lemma_expr_hash(ign, el + arm_names(l[0]), er + arm_names(r[0]), l[0].body, r[0].body, h1);
        assert(arm_hash(h, el, l[0]) == arm_hash(h, er, r[0]));
        lemma_arms_hash(ign, el, er, l.drop_first(), r.drop_first(), arm_hash(h, el, l[0]));
    }
}

} // verus!
