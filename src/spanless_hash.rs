use vstd::prelude::*;

use crate::ast::{Arm, BinOp, Block, Expr, ExprKind, MatchSource, Pat, Stmt, UnOp};
use crate::spanless_eq::{
    arm_names, push_arm_names, push_stmt_names, scope_index, scope_lookup, stmt_names, stmts_names,
};

verus! {

pub const HASH_SEED: u64 = 0xcbf2_9ce4_8422_2325;

pub const HASH_PRIME: u64 = 0x0000_0100_0000_01b3;

/// Folds one word into the hash state.
pub open spec fn mix(h: u64, w: u64) -> u64 {
    (h ^ w).wrapping_mul(HASH_PRIME)
}

pub open spec fn unop_code(op: UnOp) -> u64 {
    match op {
        UnOp::Not => 0,
        UnOp::Neg => 1,
        UnOp::Deref => 2,
    }
}

pub open spec fn binop_code(op: BinOp) -> u64 {
    match op {
        BinOp::Add => 0,
        BinOp::Sub => 1,
        BinOp::Mul => 2,
        BinOp::Div => 3,
        BinOp::Rem => 4,
        BinOp::And => 5,
        BinOp::Or => 6,
        BinOp::BitXor => 7,
        BinOp::BitAnd => 8,
        BinOp::BitOr => 9,
        BinOp::Shl => 10,
        BinOp::Shr => 11,
        BinOp::Eq => 12,
        BinOp::Lt => 13,
        BinOp::Le => 14,
        BinOp::Ne => 15,
        BinOp::Ge => 16,
        BinOp::Gt => 17,
    }
}

pub open spec fn source_code(src: MatchSource) -> u64 {
    match src {
        MatchSource::Normal => 0,
        MatchSource::IfLetDesugar => 1,
        MatchSource::WhileLetDesugar => 2,
        MatchSource::ForLoopDesugar => 3,
    }
}

/// The hash of a pattern folded into `h`. Binding names are left out.
pub open spec fn pat_hash(h: u64, p: Pat) -> u64
    decreases p,
{
    match p {
        Pat::Wild => mix(h, 20),
        Pat::Ident(_, _, sub) => match sub {
            Some(s) => pat_hash(mix(h, 21), *s),
            None => mix(h, 21),
        },
        Pat::Struct(path, _, pats, _) => pats_hash(mix(mix(h, 22), path), pats@),
        Pat::TupleStruct(path, pats) => match pats {
            Some(ps) => pats_hash(mix(mix(h, 23), path), ps@),
            None => mix(mix(h, 24), path),
        },
        Pat::Path(path) => mix(mix(h, 25), path),
        Pat::Tuple(pats) => pats_hash(mix(h, 26), pats@),
        Pat::Box(s) => pat_hash(mix(h, 27), *s),
        Pat::Ref(s) => pat_hash(mix(h, 28), *s),
        Pat::Lit(v) => mix(mix(h, 29), v),
        Pat::Range(a, b) => mix(mix(mix(h, 30), a), b),
        Pat::Slice(before, mid, after) => {
            let h = pats_hash(mix(h, 31), before@);
            let h = match mid {
                Some(m) => pat_hash(h, *m),
                None => h,
            };
            pats_hash(h, after@)
        },
    }
}

pub open spec fn pats_hash(h: u64, ps: Seq<Pat>) -> u64
    decreases ps,
{
    if ps.len() == 0 {
        h
    } else {
        pats_hash(pat_hash(h, ps[0]), ps.drop_first())
    }
}

/// The hash of an expression folded into `h`, with `env` the names bound
/// so far. A bound name is hashed by its position, a free one by itself.
pub open spec fn expr_hash(h: u64, env: Seq<u64>, e: Expr) -> u64
    decreases e,
{
    match e.kind {
        ExprKind::Lit(v) => mix(mix(h, 1), v),
        ExprKind::Path(x) => {
            let i = scope_index(env, x);
            if i >= 0 {
                mix(mix(h, 2), i as u64)
            } else {
                mix(mix(h, 3), x)
            }
        },
        ExprKind::Unary(op, a) => expr_hash(mix(mix(h, 4), unop_code(op)), env, *a),
        ExprKind::Binary(op, a, b) => expr_hash(
            expr_hash(mix(mix(h, 5), binop_code(op)), env, *a),
            env,
            *b,
        ),
        ExprKind::Call(f, args) => exprs_hash(expr_hash(mix(h, 6), env, *f), env, args@),
        ExprKind::MethodCall(name, args) => exprs_hash(mix(mix(h, 7), name), env, args@),
        ExprKind::Field(a, name) => mix(expr_hash(mix(h, 8), env, *a), name),
        ExprKind::Tuple(args) => exprs_hash(mix(h, 9), env, args@),
        ExprKind::If(c, t, el) => opt_expr_hash(
            block_hash(expr_hash(mix(h, 10), env, *c), env, *t),
            env,
            el,
        ),
        ExprKind::Block(b) => block_hash(mix(h, 11), env, *b),
        ExprKind::Match(s, arms, src) => arms_hash(
            expr_hash(mix(mix(h, 12), source_code(src)), env, *s),
            env,
            arms@,
        ),
        ExprKind::Other => mix(h, 13),
    }
}

pub open spec fn opt_expr_hash(h: u64, env: Seq<u64>, e: Option<Box<Expr>>) -> u64
    decreases e,
{
    match e {
        Some(x) => expr_hash(mix(h, 14), env, *x),
        None => mix(h, 15),
    }
}

pub open spec fn exprs_hash(h: u64, env: Seq<u64>, es: Seq<Expr>) -> u64
    decreases es,
{
    if es.len() == 0 {
        h
    } else {
        exprs_hash(expr_hash(h, env, es[0]), env, es.drop_first())
    }
}

pub open spec fn block_hash(h: u64, env: Seq<u64>, b: Block) -> u64
    decreases b,
{
    opt_expr_hash(
        stmts_hash(mix(h, 16), env, b.stmts@),
        env + stmts_names(b.stmts@),
        b.expr,
    )
}

pub open spec fn stmts_hash(h: u64, env: Seq<u64>, ss: Seq<Stmt>) -> u64
    decreases ss,
{
    if ss.len() == 0 {
        h
    } else {
        stmts_hash(stmt_hash(h, env, ss[0]), env + stmt_names(ss[0]), ss.drop_first())
    }
}

pub open spec fn stmt_hash(h: u64, env: Seq<u64>, s: Stmt) -> u64
    decreases s,
{
    match s {
        Stmt::Let(p, init) => {
            let h = pat_hash(mix(h, 17), p);
            match init {
                Some(e) => expr_hash(h, env, e),
                None => h,
            }
        },
        Stmt::Expr(e) => expr_hash(mix(h, 18), env, e),
        Stmt::Semi(e) => expr_hash(mix(h, 19), env, e),
        Stmt::Item => mix(h, 32),
    }
}

pub open spec fn arm_hash(h: u64, env: Seq<u64>, a: Arm) -> u64
    decreases a,
{
    expr_hash(pats_hash(h, a.pats@), env + arm_names(a), a.body)
}

pub open spec fn arms_hash(h: u64, env: Seq<u64>, arms: Seq<Arm>) -> u64
    decreases arms,
{
    if arms.len() == 0 {
        h
    } else {
        arms_hash(arm_hash(h, env, arms[0]), env, arms.drop_first())
    }
}


proof fn lemma_block_hash_step(h: u64, env: Seq<u64>, b: Block, i: int)
    requires
        0 <= i < b.stmts@.len(),
    ensures
        ({
            let rest = b.stmts@.subrange(i, b.stmts@.len() as int);
            let next = b.stmts@.subrange(i + 1, b.stmts@.len() as int);
            let s = b.stmts@[i];
            &&& stmts_hash(h, env, rest) == stmts_hash(
                stmt_hash(h, env, s),
                env + stmt_names(s),
                next,
            )
            &&& env + stmts_names(rest) == (env + stmt_names(s)) + stmts_names(next)
        }),
{
    let rest = b.stmts@.subrange(i, b.stmts@.len() as int);
    let next = b.stmts@.subrange(i + 1, b.stmts@.len() as int);
    assert(rest.drop_first() =~= next);
    assert(env + stmts_names(rest) =~= (env + stmt_names(b.stmts@[i])) + stmts_names(next));
}

fn mix_word(h: u64, w: u64) -> (r: u64)
    ensures
        r == mix(h, w),
{
    (h ^ w).wrapping_mul(HASH_PRIME)
}

fn unop_word(op: UnOp) -> (r: u64)
    ensures
        r == unop_code(op),
{
    match op {
        UnOp::Not => 0,
        UnOp::Neg => 1,
        UnOp::Deref => 2,
    }
}

fn binop_word(op: BinOp) -> (r: u64)
    ensures
        r == binop_code(op),
{
    match op {
        BinOp::Add => 0,
        BinOp::Sub => 1,
        BinOp::Mul => 2,
        BinOp::Div => 3,
        BinOp::Rem => 4,
        BinOp::And => 5,
        BinOp::Or => 6,
        BinOp::BitXor => 7,
        BinOp::BitAnd => 8,
        BinOp::BitOr => 9,
        BinOp::Shl => 10,
        BinOp::Shr => 11,
        BinOp::Eq => 12,
        BinOp::Lt => 13,
        BinOp::Le => 14,
        BinOp::Ne => 15,
        BinOp::Ge => 16,
        BinOp::Gt => 17,
    }
}

fn source_word(src: MatchSource) -> (r: u64)
    ensures
        r == source_code(src),
{
    match src {
        MatchSource::Normal => 0,
        MatchSource::IfLetDesugar => 1,
        MatchSource::WhileLetDesugar => 2,
        MatchSource::ForLoopDesugar => 3,
    }
}

/// The structural hash of an expression: spans, ids and the names of
/// locals bound inside it do not enter it.
pub fn hash_expr(e: &Expr) -> (r: u64)
    ensures
        r == expr_hash(HASH_SEED, Seq::empty(), *e),
{
    let mut env: Vec<u64> = Vec::new();
    hash_expr_in(HASH_SEED, &mut env, e)
}

/// The structural hash of a block.
pub fn hash_block(b: &Block) -> (r: u64)
    ensures
        r == block_hash(HASH_SEED, Seq::empty(), *b),
{
    let mut env: Vec<u64> = Vec::new();
    hash_block_in(HASH_SEED, &mut env, b)
}

fn hash_pat(h: u64, p: &Pat) -> (r: u64)
    ensures
        r == pat_hash(h, *p),
    decreases p,
{
    match p {
        Pat::Wild => mix_word(h, 20),
        Pat::Ident(_, _, sub) => match sub {
            Some(s) => hash_pat(mix_word(h, 21), s),
            None => mix_word(h, 21),
        },
        Pat::Struct(path, _, pats, _) => hash_pats(mix_word(mix_word(h, 22), *path), pats),
        Pat::TupleStruct(path, pats) => match pats {
            Some(ps) => hash_pats(mix_word(mix_word(h, 23), *path), ps),
            None => mix_word(mix_word(h, 24), *path),
        },
        Pat::Path(path) => mix_word(mix_word(h, 25), *path),
        Pat::Tuple(pats) => hash_pats(mix_word(h, 26), pats),
        Pat::Box(s) => hash_pat(mix_word(h, 27), s),
        Pat::Ref(s) => hash_pat(mix_word(h, 28), s),
        Pat::Lit(v) => mix_word(mix_word(h, 29), *v),
        Pat::Range(a, b) => mix_word(mix_word(mix_word(h, 30), *a), *b),
        Pat::Slice(before, mid, after) => {
            let h = hash_pats(mix_word(h, 31), before);
            let h = match mid {
                Some(m) => hash_pat(h, m),
                None => h,
            };
            hash_pats(h, after)
        },
    }
}

fn hash_pats(h: u64, ps: &Vec<Pat>) -> (r: u64)
    ensures
        r == pats_hash(h, ps@),
    decreases ps,
{
    let n = ps.len();
    let mut i: usize = 0;
    let mut cur = h;
    assert(ps@.subrange(0, n as int) =~= ps@);
    while i < n
        invariant
            n == ps@.len(),
            i <= n,
            pats_hash(h, ps@) == pats_hash(cur, ps@.subrange(i as int, n as int)),
        decreases n - i,
    {
        assert(ps@.subrange(i as int, n as int).drop_first() =~= ps@.subrange(i + 1, n as int));
        cur = hash_pat(cur, &ps[i]);
        i += 1;
    }
    cur
}

pub(crate) fn hash_expr_in(h: u64, env: &mut Vec<u64>, e: &Expr) -> (r: u64)
    ensures
        r == expr_hash(h, old(env)@, *e),
        final(env)@ == old(env)@,
    decreases e,
{
    match &e.kind {
        ExprKind::Lit(v) => mix_word(mix_word(h, 1), *v),
        ExprKind::Path(x) => match scope_lookup(env, *x) {
            Some(i) => mix_word(mix_word(h, 2), i as u64),
            None => mix_word(mix_word(h, 3), *x),
        },
        ExprKind::Unary(op, a) => hash_expr_in(mix_word(mix_word(h, 4), unop_word(*op)), env, a),
        ExprKind::Binary(op, a, b) => {
            let h = hash_expr_in(mix_word(mix_word(h, 5), binop_word(*op)), env, a);
            hash_expr_in(h, env, b)
        },
        ExprKind::Call(f, args) => {
            let h = hash_expr_in(mix_word(h, 6), env, f);
            hash_exprs_in(h, env, args)
        },
        ExprKind::MethodCall(name, args) => hash_exprs_in(
            mix_word(mix_word(h, 7), *name),
            env,
            args,
        ),
        ExprKind::Field(a, name) => mix_word(hash_expr_in(mix_word(h, 8), env, a), *name),
        ExprKind::Tuple(args) => hash_exprs_in(mix_word(h, 9), env, args),
        ExprKind::If(c, t, el) => {
            let h = hash_expr_in(mix_word(h, 10), env, c);
            let h = hash_block_in(h, env, t);
            hash_opt_expr_in(h, env, el)
        },
        ExprKind::Block(b) => hash_block_in(mix_word(h, 11), env, b),
        ExprKind::Match(s, arms, src) => {
            let h = hash_expr_in(mix_word(mix_word(h, 12), source_word(*src)), env, s);
            hash_arms_in(h, env, arms)
        },
        ExprKind::Other => mix_word(h, 13),
    }
}

fn hash_opt_expr_in(h: u64, env: &mut Vec<u64>, e: &Option<Box<Expr>>) -> (r: u64)
    ensures
        r == opt_expr_hash(h, old(env)@, *e),
        final(env)@ == old(env)@,
    decreases e,
{
    match e {
        Some(x) => hash_expr_in(mix_word(h, 14), env, x),
        None => mix_word(h, 15),
    }
}

fn hash_exprs_in(h: u64, env: &mut Vec<u64>, es: &Vec<Expr>) -> (r: u64)
    ensures
        r == exprs_hash(h, old(env)@, es@),
        final(env)@ == old(env)@,
    decreases es,
{
    let n = es.len();
    let mut i: usize = 0;
    let mut cur = h;
    assert(es@.subrange(0, n as int) =~= es@);
    while i < n
        invariant
            n == es@.len(),
            i <= n,
            env@ == old(env)@,
            exprs_hash(h, env@, es@) == exprs_hash(cur, env@, es@.subrange(i as int, n as int)),
        decreases n - i,
    {
        assert(es@.subrange(i as int, n as int).drop_first() =~= es@.subrange(i + 1, n as int));
        cur = hash_expr_in(cur, env, &es[i]);
        i += 1;
    }
    cur
}

fn hash_block_in(h: u64, env: &mut Vec<u64>, b: &Block) -> (r: u64)
    ensures
        r == block_hash(h, old(env)@, *b),
        final(env)@ == old(env)@,
    decreases b,
{
    let ghost env0 = env@;
    let k = env.len();
    let n = b.stmts.len();
    let mut i: usize = 0;
    let mut cur = mix_word(h, 16);
    assert(b.stmts@.subrange(0, n as int) =~= b.stmts@);
    assert(env@.subrange(0, k as int) =~= env0);
    while i < n
        invariant
            n == b.stmts@.len(),
            i <= n,
            env0 == old(env)@,
            k == env0.len(),
            k <= env@.len(),
            env@.subrange(0, k as int) == env0,
            block_hash(h, env0, *b) == opt_expr_hash(
                stmts_hash(cur, env@, b.stmts@.subrange(i as int, n as int)),
                env@ + stmts_names(b.stmts@.subrange(i as int, n as int)),
                b.expr,
            ),
        decreases n - i,
    {
        proof {
            lemma_block_hash_step(cur, env@, *b, i as int);
        }
        cur = hash_stmt_in(cur, env, &b.stmts[i]);
        push_stmt_names(env, &b.stmts[i]);
        assert(env@.subrange(0, k as int) =~= env0);
        i += 1;
    }
    assert(b.stmts@.subrange(n as int, n as int) =~= Seq::<Stmt>::empty());
    assert(env@ + stmts_names(Seq::<Stmt>::empty()) =~= env@);
    let r = hash_opt_expr_in(cur, env, &b.expr);
    env.truncate(k);
    r
}

fn hash_stmt_in(h: u64, env: &mut Vec<u64>, s: &Stmt) -> (r: u64)
    ensures
        r == stmt_hash(h, old(env)@, *s),
        final(env)@ == old(env)@,
    decreases s,
{
    match s {
        Stmt::Let(p, init) => {
            let h = hash_pat(mix_word(h, 17), p);
            match init {
                Some(e) => hash_expr_in(h, env, e),
                None => h,
            }
        },
        Stmt::Expr(e) => hash_expr_in(mix_word(h, 18), env, e),
        Stmt::Semi(e) => hash_expr_in(mix_word(h, 19), env, e),
        Stmt::Item => mix_word(h, 32),
    }
}

pub(crate) fn hash_arm_in(h: u64, env: &mut Vec<u64>, a: &Arm) -> (r: u64)
    ensures
        r == arm_hash(h, old(env)@, *a),
        final(env)@ == old(env)@,
    decreases a,
{
    let ghost env0 = env@;
    let k = env.len();
    let h = hash_pats(h, &a.pats);
    push_arm_names(env, a);
    let r = hash_expr_in(h, env, &a.body);
    env.truncate(k);
    assert(env@ =~= env0);
    r
}

fn hash_arms_in(h: u64, env: &mut Vec<u64>, arms: &Vec<Arm>) -> (r: u64)
    ensures
        r == arms_hash(h, old(env)@, arms@),
        final(env)@ == old(env)@,
    decreases arms,
{
    let n = arms.len();
    let mut i: usize = 0;
    let mut cur = h;
    assert(arms@.subrange(0, n as int) =~= arms@);
    while i < n
        invariant
            n == arms@.len(),
            i <= n,
            env@ == old(env)@,
            arms_hash(h, env@, arms@) == arms_hash(cur, env@, arms@.subrange(i as int, n as int)),
        decreases n - i,
    {
        assert(arms@.subrange(i as int, n as int).drop_first() =~= arms@.subrange(i + 1, n as int));
        cur = hash_arm_in(cur, env, &arms[i]);
        i += 1;
    }
    cur
}

} // verus!
