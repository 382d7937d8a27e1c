use vstd::prelude::*;

use crate::ast::{Arm, Block, Expr, ExprKind, Pat, Stmt};
use crate::bindings::{Binding, binding_names, bindings, bindings_of};

verus! {

// Locals are compared by position: each side carries the stack of names
// bound so far (innermost last). Two paths are equivalent when they name
// the same position of their stacks, or are both unbound and equal.

/// Position of the innermost binding of `x` in `env`, or -1 when `x` is not
/// bound there.
pub open spec fn scope_index(env: Seq<u64>, x: u64) -> int
    decreases env.len(),
{
    if env.len() == 0 {
        -1
    } else if env.last() == x {
        env.len() - 1
    } else {
        scope_index(env.drop_last(), x)
    }
}

pub open spec fn path_eq(el: Seq<u64>, er: Seq<u64>, x: u64, y: u64) -> bool {
    &&& scope_index(el, x) == scope_index(er, y)
    &&& (scope_index(el, x) >= 0 || x == y)
}

/// The names that a pattern binds.
pub open spec fn pat_names(p: Pat) -> Seq<u64> {
    binding_names(bindings_of(p))
}

/// The names that an arm's body sees: those of its first pattern.
pub open spec fn arm_names(a: Arm) -> Seq<u64> {
    if a.pats@.len() > 0 {
        pat_names(a.pats@[0])
    } else {
        Seq::empty()
    }
}

pub open spec fn stmt_names(s: Stmt) -> Seq<u64> {
    match s {
        Stmt::Let(p, _) => pat_names(p),
        _ => Seq::empty(),
    }
}

/// The names that a sequence of statements binds, in order.
pub open spec fn stmts_names(ss: Seq<Stmt>) -> Seq<u64>
    decreases ss.len(),
{
    if ss.len() == 0 {
        Seq::empty()
    } else {
        stmt_names(ss[0]) + stmts_names(ss.drop_first())
    }
}

/// Structural equivalence of patterns; the names of bindings are not
/// compared (they are matched by position where they are used).
pub open spec fn pat_eq(l: Pat, r: Pat) -> bool
    decreases l,
{
    match (l, r) {
        (Pat::Wild, Pat::Wild) => true,
        (Pat::Ident(_, _, ls), Pat::Ident(_, _, rs)) => match (ls, rs) {
            (Some(a), Some(b)) => pat_eq(*a, *b),
            (None, None) => true,
            _ => false,
        },
        (Pat::Struct(lp, lf, lps, le), Pat::Struct(rp, rf, rps, re)) => {
            lp == rp && lf@ == rf@ && pats_eq(lps@, rps@) && le == re
        },
        (Pat::TupleStruct(lp, ls), Pat::TupleStruct(rp, rs)) => lp == rp && match (ls, rs) {
            (Some(a), Some(b)) => pats_eq(a@, b@),
            (None, None) => true,
            _ => false,
        },
        (Pat::Path(a), Pat::Path(b)) => a == b,
        (Pat::Tuple(a), Pat::Tuple(b)) => pats_eq(a@, b@),
        (Pat::Box(a), Pat::Box(b)) => pat_eq(*a, *b),
        (Pat::Ref(a), Pat::Ref(b)) => pat_eq(*a, *b),
        (Pat::Lit(a), Pat::Lit(b)) => a == b,
        (Pat::Range(a1, a2), Pat::Range(b1, b2)) => a1 == b1 && a2 == b2,
        (Pat::Slice(lb, lm, la), Pat::Slice(rb, rm, ra)) => {
            &&& pats_eq(lb@, rb@)
            &&& match (lm, rm) {
                (Some(a), Some(b)) => pat_eq(*a, *b),
                (None, None) => true,
                _ => false,
            }
            &&& pats_eq(la@, ra@)
        },
        _ => false,
    }
}

pub open spec fn pats_eq(ls: Seq<Pat>, rs: Seq<Pat>) -> bool
    decreases ls,
{
    if ls.len() == 0 {
        rs.len() == 0
    } else {
        rs.len() > 0 && pat_eq(ls[0], rs[0]) && pats_eq(ls.drop_first(), rs.drop_first())
    }
}

/// Structural equivalence of expressions under the binding stacks `el` and
/// `er`. Spans and ids are not compared. With `ign` set, a call is never
/// equivalent to anything (its result may differ from one evaluation to
/// the next). A node of kind `Other` is never equivalent to anything.
pub open spec fn expr_eq(ign: bool, el: Seq<u64>, er: Seq<u64>, l: Expr, r: Expr) -> bool
    decreases l,
{
    match (l.kind, r.kind) {
        (ExprKind::Lit(a), ExprKind::Lit(b)) => a == b,
        (ExprKind::Path(a), ExprKind::Path(b)) => path_eq(el, er, a, b),
        (ExprKind::Unary(lo, la), ExprKind::Unary(ro, ra)) => lo == ro && expr_eq(
            ign,
            el,
            er,
            *la,
            *ra,
        ),
        (ExprKind::Binary(lo, la, lb), ExprKind::Binary(ro, ra, rb)) => {
            lo == ro && expr_eq(ign, el, er, *la, *ra) && expr_eq(ign, el, er, *lb, *rb)
        },
        (ExprKind::Call(lf, la), ExprKind::Call(rf, ra)) => {
            !ign && expr_eq(ign, el, er, *lf, *rf) && exprs_eq(ign, el, er, la@, ra@)
        },
        (ExprKind::MethodCall(ln, la), ExprKind::MethodCall(rn, ra)) => {
            !ign && ln == rn && exprs_eq(ign, el, er, la@, ra@)
        },
        (ExprKind::Field(la, lf), ExprKind::Field(ra, rf)) => lf == rf && expr_eq(
            ign,
            el,
            er,
            *la,
            *ra,
        ),
        (ExprKind::Tuple(la), ExprKind::Tuple(ra)) => exprs_eq(ign, el, er, la@, ra@),
        (ExprKind::If(lc, lt, le), ExprKind::If(rc, rt, re)) => {
            &&& expr_eq(ign, el, er, *lc, *rc)
            &&& block_eq(ign, el, er, *lt, *rt)
            &&& opt_expr_eq(ign, el, er, le, re)
        },
        (ExprKind::Block(lb), ExprKind::Block(rb)) => block_eq(ign, el, er, *lb, *rb),
        (ExprKind::Match(ls, la, lsrc), ExprKind::Match(rs, ra, rsrc)) => {
            lsrc == rsrc && expr_eq(ign, el, er, *ls, *rs) && arms_eq(ign, el, er, la@, ra@)
        },
        _ => false,
    }
}

pub open spec fn opt_expr_eq(
    ign: bool,
    el: Seq<u64>,
    er: Seq<u64>,
    l: Option<Box<Expr>>,
    r: Option<Box<Expr>>,
) -> bool
    decreases l,
{
    match (l, r) {
        (Some(a), Some(b)) => expr_eq(ign, el, er, *a, *b),
        (None, None) => true,
        _ => false,
    }
}

pub open spec fn exprs_eq(ign: bool, el: Seq<u64>, er: Seq<u64>, ls: Seq<Expr>, rs: Seq<Expr>) -> bool
    decreases ls,
{
    if ls.len() == 0 {
        rs.len() == 0
    } else {
        &&& rs.len() > 0
        &&& expr_eq(ign, el, er, ls[0], rs[0])
        &&& exprs_eq(ign, el, er, ls.drop_first(), rs.drop_first())
    }
}

/// Statements are compared in order; the names that a `let` binds are in
/// scope for the statements after it and for the trailing expression.
pub open spec fn block_eq(ign: bool, el: Seq<u64>, er: Seq<u64>, l: Block, r: Block) -> bool
    decreases l,
{
    &&& stmts_eq(ign, el, er, l.stmts@, r.stmts@)
    &&& opt_expr_eq(
        ign,
        el + stmts_names(l.stmts@),
        er + stmts_names(r.stmts@),
        l.expr,
        r.expr,
    )
}

pub open spec fn stmts_eq(ign: bool, el: Seq<u64>, er: Seq<u64>, ls: Seq<Stmt>, rs: Seq<Stmt>) -> bool
    decreases ls,
{
    if ls.len() == 0 {
        rs.len() == 0
    } else {
        &&& rs.len() > 0
        &&& stmt_eq(ign, el, er, ls[0], rs[0])
        &&& stmts_eq(
            ign,
            el + stmt_names(ls[0]),
            er + stmt_names(rs[0]),
            ls.drop_first(),
            rs.drop_first(),
        )
    }
}

/// A nested item is never equivalent to anything.
pub open spec fn stmt_eq(ign: bool, el: Seq<u64>, er: Seq<u64>, l: Stmt, r: Stmt) -> bool
    decreases l,
{
    match (l, r) {
        (Stmt::Let(lp, li), Stmt::Let(rp, ri)) => pat_eq(lp, rp) && match (li, ri) {
            (Some(a), Some(b)) => expr_eq(ign, el, er, a, b),
            (None, None) => true,
            _ => false,
        },
        (Stmt::Expr(a), Stmt::Expr(b)) => expr_eq(ign, el, er, a, b),
        (Stmt::Semi(a), Stmt::Semi(b)) => expr_eq(ign, el, er, a, b),
        _ => false,
    }
}

/// Arms of a nested `match`: same patterns, and bodies equivalent with the
/// names of the first pattern of each pushed on its side's stack.
pub open spec fn arm_eq(ign: bool, el: Seq<u64>, er: Seq<u64>, l: Arm, r: Arm) -> bool
    decreases l,
{
    &&& pats_eq(l.pats@, r.pats@)
    &&& expr_eq(ign, el + arm_names(l), er + arm_names(r), l.body, r.body)
}

pub open spec fn arms_eq(ign: bool, el: Seq<u64>, er: Seq<u64>, ls: Seq<Arm>, rs: Seq<Arm>) -> bool
    decreases ls,
{
    if ls.len() == 0 {
        rs.len() == 0
    } else {
        &&& rs.len() > 0
        &&& arm_eq(ign, el, er, ls[0], rs[0])
        &&& arms_eq(ign, el, er, ls.drop_first(), rs.drop_first())
    }
}


/// What is left of a block comparison once `i` statements have matched and
/// the stacks hold their names.
pub open spec fn block_rest_eq(
    ign: bool,
    el: Seq<u64>,
    er: Seq<u64>,
    l: Block,
    r: Block,
    i: int,
) -> bool {
    let ls = l.stmts@.subrange(i, l.stmts@.len() as int);
    let rs = r.stmts@.subrange(i, r.stmts@.len() as int);
    &&& stmts_eq(ign, el, er, ls, rs)
    &&& opt_expr_eq(ign, el + stmts_names(ls), er + stmts_names(rs), l.expr, r.expr)
}

proof fn lemma_block_rest_step(ign: bool, el: Seq<u64>, er: Seq<u64>, l: Block, r: Block, i: int)
    requires
        0 <= i < l.stmts@.len(),
        i < r.stmts@.len(),
    ensures
        block_rest_eq(ign, el, er, l, r, i) == (stmt_eq(ign, el, er, l.stmts@[i], r.stmts@[i])
            && block_rest_eq(
            ign,
            el + stmt_names(l.stmts@[i]),
            er + stmt_names(r.stmts@[i]),
            l,
            r,
            i + 1,
        )),
{
    let ls = l.stmts@.subrange(i, l.stmts@.len() as int);
    let rs = r.stmts@.subrange(i, r.stmts@.len() as int);
    assert(ls.drop_first() =~= l.stmts@.subrange(i + 1, l.stmts@.len() as int));
    assert(rs.drop_first() =~= r.stmts@.subrange(i + 1, r.stmts@.len() as int));
    let nl = stmt_names(l.stmts@[i]);
    let nr = stmt_names(r.stmts@[i]);
    assert(el + stmts_names(ls) =~= (el + nl) + stmts_names(ls.drop_first()));
    assert(er + stmts_names(rs) =~= (er + nr) + stmts_names(rs.drop_first()));
}

/// Spanless comparison of syntax fragments.
#[derive(Clone, Copy, Debug)]
pub struct SpanlessEq {
    /// When set, a call is never equivalent to anything.
    pub ignore_fn: bool,
}

impl SpanlessEq {
    pub fn new() -> (r: Self)
        ensures
            !r.ignore_fn,
    {
        SpanlessEq { ignore_fn: false }
    }

    /// The same comparison, except that calls are never equivalent.
    pub fn ignore_fn(self) -> (r: Self)
        ensures
            r.ignore_fn,
    {
        SpanlessEq { ignore_fn: true }
    }

    /// Tells whether two expressions are structurally equivalent.
    pub fn eq_expr(&self, l: &Expr, r: &Expr) -> (res: bool)
        ensures
            res == expr_eq(self.ignore_fn, Seq::empty(), Seq::empty(), *l, *r),
    {
        let mut el: Vec<u64> = Vec::new();
        let mut er: Vec<u64> = Vec::new();
        eq_expr_in(self.ignore_fn, &mut el, &mut er, l, r)
    }

    /// Tells whether two blocks are structurally equivalent.
    pub fn eq_block(&self, l: &Block, r: &Block) -> (res: bool)
        ensures
            res == block_eq(self.ignore_fn, Seq::empty(), Seq::empty(), *l, *r),
    {
        let mut el: Vec<u64> = Vec::new();
        let mut er: Vec<u64> = Vec::new();
        eq_block_in(self.ignore_fn, &mut el, &mut er, l, r)
    }
}

/// Position of the innermost binding of `x` in `env`.
pub fn scope_lookup(env: &Vec<u64>, x: u64) -> (r: Option<usize>)
    ensures
        match r {
            Some(i) => i == scope_index(env@, x) && i < env@.len(),
            None => scope_index(env@, x) == -1,
        },
{
    let mut i: usize = env.len();
    assert(env@.subrange(0, i as int) =~= env@);
    while i > 0
        invariant
            i <= env@.len(),
            scope_index(env@, x) == scope_index(env@.subrange(0, i as int), x),
        decreases i,
    {
        if env[i - 1] == x {
            return Some(i - 1);
        }
        assert(env@.subrange(0, i as int).drop_last() =~= env@.subrange(0, i - 1));
        i -= 1;
    }
    None
}

fn eq_path(el: &Vec<u64>, er: &Vec<u64>, x: u64, y: u64) -> (r: bool)
    ensures
        r == path_eq(el@, er@, x, y),
{
    match (scope_lookup(el, x), scope_lookup(er, y)) {
        (Some(i), Some(j)) => i == j,
        (None, None) => x == y,
        _ => false,
    }
}

fn eq_syms(a: &Vec<u64>, b: &Vec<u64>) -> (r: bool)
    ensures
        r == (a@ == b@),
{
    if a.len() != b.len() {
        return false;
    }
    let mut i: usize = 0;
    while i < a.len()
        invariant
            a@.len() == b@.len(),
            i <= a@.len(),
            forall|k: int| 0 <= k < i ==> a@[k] == b@[k],
        decreases a.len() - i,
    {
        if a[i] != b[i] {
            return false;
        }
        i += 1;
    }
    assert(a@ =~= b@);
    true
}

/// Pushes the names of `bs` on `env`.
pub(crate) fn push_names(env: &mut Vec<u64>, bs: &Vec<Binding>)
    ensures
        final(env)@ == old(env)@ + binding_names(bs@),
{
    let mut k: usize = 0;
    while k < bs.len()
        invariant
            k <= bs@.len(),
            env@ == old(env)@ + binding_names(bs@.subrange(0, k as int)),
        decreases bs.len() - k,
    {
        assert(binding_names(bs@.subrange(0, k + 1)) =~= binding_names(bs@.subrange(0, k as int)).push(bs@[k as int].name));
        env.push(bs[k].name);
        k += 1;
    }
    assert(bs@.subrange(0, k as int) =~= bs@);
}

pub(crate) fn push_pat_names(env: &mut Vec<u64>, p: &Pat)
    ensures
        final(env)@ == old(env)@ + pat_names(*p),
{
    let bs = bindings(p);
    push_names(env, &bs);
}

pub(crate) fn push_stmt_names(env: &mut Vec<u64>, s: &Stmt)
    ensures
        final(env)@ == old(env)@ + stmt_names(*s),
{
    match s {
        Stmt::Let(p, _) => push_pat_names(env, p),
        _ => {
            assert(env@ + stmt_names(*s) =~= env@);
        },
    }
}

pub(crate) fn push_arm_names(env: &mut Vec<u64>, a: &Arm)
    ensures
        final(env)@ == old(env)@ + arm_names(*a),
{
    if a.pats.len() > 0 {
        push_pat_names(env, &a.pats[0]);
    } else {
        assert(env@ + arm_names(*a) =~= env@);
    }
}

fn eq_opt_pat(l: &Option<Box<Pat>>, r: &Option<Box<Pat>>) -> (res: bool)
    ensures
        res == match (*l, *r) {
            (Some(a), Some(b)) => pat_eq(*a, *b),
            (None, None) => true,
            _ => false,
        },
    decreases l,
{
    match (l, r) {
        (Some(a), Some(b)) => eq_pat(a, b),
        (None, None) => true,
        _ => false,
    }
}

fn eq_pat(l: &Pat, r: &Pat) -> (res: bool)
    ensures
        res == pat_eq(*l, *r),
    decreases l,
{
    match (l, r) {
        (Pat::Wild, Pat::Wild) => true,
        (Pat::Ident(_, _, ls), Pat::Ident(_, _, rs)) => eq_opt_pat(ls, rs),
        (Pat::Struct(lp, lf, lps, le), Pat::Struct(rp, rf, rps, re)) => {
            *lp == *rp && eq_syms(lf, rf) && eq_pats(lps, rps) && *le == *re
        },
        (Pat::TupleStruct(lp, ls), Pat::TupleStruct(rp, rs)) => {
            *lp == *rp && match (ls, rs) {
                (Some(a), Some(b)) => eq_pats(a, b),
                (None, None) => true,
                _ => false,
            }
        },
        (Pat::Path(a), Pat::Path(b)) => *a == *b,
        (Pat::Tuple(a), Pat::Tuple(b)) => eq_pats(a, b),
        (Pat::Box(a), Pat::Box(b)) => eq_pat(a, b),
        (Pat::Ref(a), Pat::Ref(b)) => eq_pat(a, b),
        (Pat::Lit(a), Pat::Lit(b)) => *a == *b,
        (Pat::Range(a1, a2), Pat::Range(b1, b2)) => *a1 == *b1 && *a2 == *b2,
        (Pat::Slice(lb, lm, la), Pat::Slice(rb, rm, ra)) => {
            eq_pats(lb, rb) && eq_opt_pat(lm, rm) && eq_pats(la, ra)
        },
        _ => false,
    }
}

fn eq_pats(ls: &Vec<Pat>, rs: &Vec<Pat>) -> (res: bool)
    ensures
        res == pats_eq(ls@, rs@),
    decreases ls,
{
    let n = ls.len();
    let m = rs.len();
    let mut i: usize = 0;
    assert(ls@.subrange(0, n as int) =~= ls@);
    assert(rs@.subrange(0, m as int) =~= rs@);
    while i < n
        invariant
            n == ls@.len(),
            m == rs@.len(),
            i <= n,
            i <= m,
            pats_eq(ls@, rs@) == pats_eq(
                ls@.subrange(i as int, n as int),
                rs@.subrange(i as int, m as int),
            ),
        decreases n - i,
    {
        if i >= m {
            return false;
        }
        assert(ls@.subrange(i as int, n as int).drop_first() =~= ls@.subrange(i + 1, n as int));
        assert(rs@.subrange(i as int, m as int).drop_first() =~= rs@.subrange(i + 1, m as int));
        if !eq_pat(&ls[i], &rs[i]) {
            return false;
        }
        i += 1;
    }
    n == m
}

pub(crate) fn eq_expr_in(ign: bool, el: &mut Vec<u64>, er: &mut Vec<u64>, l: &Expr, r: &Expr) -> (res: bool)
    ensures
        res == expr_eq(ign, old(el)@, old(er)@, *l, *r),
        final(el)@ == old(el)@,
        final(er)@ == old(er)@,
    decreases l,
{
    match (&l.kind, &r.kind) {
        (ExprKind::Lit(a), ExprKind::Lit(b)) => *a == *b,
        (ExprKind::Path(a), ExprKind::Path(b)) => eq_path(el, er, *a, *b),
        (ExprKind::Unary(lo, la), ExprKind::Unary(ro, ra)) => {
            *lo == *ro && eq_expr_in(ign, el, er, la, ra)
        },
        (ExprKind::Binary(lo, la, lb), ExprKind::Binary(ro, ra, rb)) => {
            *lo == *ro && eq_expr_in(ign, el, er, la, ra) && eq_expr_in(ign, el, er, lb, rb)
        },
        (ExprKind::Call(lf, la), ExprKind::Call(rf, ra)) => {
            !ign && eq_expr_in(ign, el, er, lf, rf) && eq_exprs_in(ign, el, er, la, ra)
        },
        (ExprKind::MethodCall(ln, la), ExprKind::MethodCall(rn, ra)) => {
            !ign && *ln == *rn && eq_exprs_in(ign, el, er, la, ra)
        },
        (ExprKind::Field(la, lf), ExprKind::Field(ra, rf)) => {
            *lf == *rf && eq_expr_in(ign, el, er, la, ra)
        },
        (ExprKind::Tuple(la), ExprKind::Tuple(ra)) => eq_exprs_in(ign, el, er, la, ra),
        (ExprKind::If(lc, lt, le), ExprKind::If(rc, rt, re)) => {
            eq_expr_in(ign, el, er, lc, rc) && eq_block_in(ign, el, er, lt, rt) && eq_opt_expr_in(
                ign,
                el,
                er,
                le,
                re,
            )
        },
        (ExprKind::Block(lb), ExprKind::Block(rb)) => eq_block_in(ign, el, er, lb, rb),
        (ExprKind::Match(ls, la, lsrc), ExprKind::Match(rs, ra, rsrc)) => {
            *lsrc == *rsrc && eq_expr_in(ign, el, er, ls, rs) && eq_arms_in(ign, el, er, la, ra)
        },
        _ => false,
    }
}

fn eq_opt_expr_in(
    ign: bool,
    el: &mut Vec<u64>,
    er: &mut Vec<u64>,
    l: &Option<Box<Expr>>,
    r: &Option<Box<Expr>>,
) -> (res: bool)
    ensures
        res == opt_expr_eq(ign, old(el)@, old(er)@, *l, *r),
        final(el)@ == old(el)@,
        final(er)@ == old(er)@,
    decreases l,
{
    match (l, r) {
        (Some(a), Some(b)) => eq_expr_in(ign, el, er, a, b),
        (None, None) => true,
        _ => false,
    }
}

fn eq_exprs_in(ign: bool, el: &mut Vec<u64>, er: &mut Vec<u64>, ls: &Vec<Expr>, rs: &Vec<Expr>) -> (res: bool)
    ensures
        res == exprs_eq(ign, old(el)@, old(er)@, ls@, rs@),
        final(el)@ == old(el)@,
        final(er)@ == old(er)@,
    decreases ls,
{
    let n = ls.len();
    let m = rs.len();
    let mut i: usize = 0;
    assert(ls@.subrange(0, n as int) =~= ls@);
    assert(rs@.subrange(0, m as int) =~= rs@);
    while i < n
        invariant
            n == ls@.len(),
            m == rs@.len(),
            i <= n,
            i <= m,
            el@ == old(el)@,
            er@ == old(er)@,
            exprs_eq(ign, el@, er@, ls@, rs@) == exprs_eq(
                ign,
                el@,
                er@,
                ls@.subrange(i as int, n as int),
                rs@.subrange(i as int, m as int),
            ),
        decreases n - i,
    {
        if i >= m {
            return false;
        }
        assert(ls@.subrange(i as int, n as int).drop_first() =~= ls@.subrange(i + 1, n as int));
        assert(rs@.subrange(i as int, m as int).drop_first() =~= rs@.subrange(i + 1, m as int));
        if !eq_expr_in(ign, el, er, &ls[i], &rs[i]) {
            return false;
        }
        i += 1;
    }
    n == m
}

fn eq_block_in(ign: bool, el: &mut Vec<u64>, er: &mut Vec<u64>, l: &Block, r: &Block) -> (res: bool)
    ensures
        res == block_eq(ign, old(el)@, old(er)@, *l, *r),
        final(el)@ == old(el)@,
        final(er)@ == old(er)@,
    decreases l,
{
    let ghost el0 = el@;
    let ghost er0 = er@;
    let nl = el.len();
    let nr = er.len();
    let n = l.stmts.len();
    let m = r.stmts.len();
    let mut i: usize = 0;
    assert(l.stmts@.subrange(0, n as int) =~= l.stmts@);
    assert(r.stmts@.subrange(0, m as int) =~= r.stmts@);
    assert(el@.subrange(0, nl as int) =~= el0);
    assert(er@.subrange(0, nr as int) =~= er0);
    while i < n
        invariant
            n == l.stmts@.len(),
            m == r.stmts@.len(),
            i <= n,
            i <= m,
            el0 == old(el)@,
            er0 == old(er)@,
            nl == el0.len(),
            nr == er0.len(),
            nl <= el@.len(),
            nr <= er@.len(),
            el@.subrange(0, nl as int) == el0,
            er@.subrange(0, nr as int) == er0,
            block_eq(ign, el0, er0, *l, *r) == block_rest_eq(ign, el@, er@, *l, *r, i as int),
        decreases n - i,
    {
        if i >= m {
            el.truncate(nl);
            er.truncate(nr);
            return false;
        }
        proof {
            lemma_block_rest_step(ign, el@, er@, *l, *r, i as int);
        }
        if !eq_stmt_in(ign, el, er, &l.stmts[i], &r.stmts[i]) {
            el.truncate(nl);
            er.truncate(nr);
            return false;
        }
        push_stmt_names(el, &l.stmts[i]);
        push_stmt_names(er, &r.stmts[i]);
        assert(el@.subrange(0, nl as int) =~= el0);
        assert(er@.subrange(0, nr as int) =~= er0);
        i += 1;
    }
    if n != m {
        el.truncate(nl);
        er.truncate(nr);
        return false;
    }
    assert(l.stmts@.subrange(n as int, n as int) =~= Seq::<Stmt>::empty());
    assert(r.stmts@.subrange(m as int, m as int) =~= Seq::<Stmt>::empty());
    assert(el@ + stmts_names(Seq::<Stmt>::empty()) =~= el@);
    assert(er@ + stmts_names(Seq::<Stmt>::empty()) =~= er@);
    let res = eq_opt_expr_in(ign, el, er, &l.expr, &r.expr);
    el.truncate(nl);
    er.truncate(nr);
    res
}

fn eq_stmt_in(ign: bool, el: &mut Vec<u64>, er: &mut Vec<u64>, l: &Stmt, r: &Stmt) -> (res: bool)
    ensures
        res == stmt_eq(ign, old(el)@, old(er)@, *l, *r),
        final(el)@ == old(el)@,
        final(er)@ == old(er)@,
    decreases l,
{
    match (l, r) {
        (Stmt::Let(lp, li), Stmt::Let(rp, ri)) => {
            eq_pat(lp, rp) && match (li, ri) {
                (Some(a), Some(b)) => eq_expr_in(ign, el, er, a, b),
                (None, None) => true,
                _ => false,
            }
        },
        (Stmt::Expr(a), Stmt::Expr(b)) => eq_expr_in(ign, el, er, a, b),
        (Stmt::Semi(a), Stmt::Semi(b)) => eq_expr_in(ign, el, er, a, b),
        _ => false,
    }
}

fn eq_arm_in(ign: bool, el: &mut Vec<u64>, er: &mut Vec<u64>, l: &Arm, r: &Arm) -> (res: bool)
    ensures
        res == arm_eq(ign, old(el)@, old(er)@, *l, *r),
        final(el)@ == old(el)@,
        final(er)@ == old(er)@,
    decreases l,
{
    if !eq_pats(&l.pats, &r.pats) {
        return false;
    }
    let ghost el0 = el@;
    let ghost er0 = er@;
    let nl = el.len();
    let nr = er.len();
    push_arm_names(el, l);
    push_arm_names(er, r);
    let res = eq_expr_in(ign, el, er, &l.body, &r.body);
    el.truncate(nl);
    er.truncate(nr);
    assert(el@ =~= el0);
    assert(er@ =~= er0);
    res
}

fn eq_arms_in(ign: bool, el: &mut Vec<u64>, er: &mut Vec<u64>, ls: &Vec<Arm>, rs: &Vec<Arm>) -> (res: bool)
    ensures
        res == arms_eq(ign, old(el)@, old(er)@, ls@, rs@),
        final(el)@ == old(el)@,
        final(er)@ == old(er)@,
    decreases ls,
{
    let n = ls.len();
    let m = rs.len();
    let mut i: usize = 0;
    assert(ls@.subrange(0, n as int) =~= ls@);
    assert(rs@.subrange(0, m as int) =~= rs@);
    while i < n
        invariant
            n == ls@.len(),
            m == rs@.len(),
            i <= n,
            i <= m,
            el@ == old(el)@,
            er@ == old(er)@,
            arms_eq(ign, el@, er@, ls@, rs@) == arms_eq(
                ign,
                el@,
                er@,
                ls@.subrange(i as int, n as int),
                rs@.subrange(i as int, m as int),
            ),
        decreases n - i,
    {
        if i >= m {
            return false;
        }
        assert(ls@.subrange(i as int, n as int).drop_first() =~= ls@.subrange(i + 1, n as int));
        assert(rs@.subrange(i as int, m as int).drop_first() =~= rs@.subrange(i + 1, m as int));
        if !eq_arm_in(ign, el, er, &ls[i], &rs[i]) {
            return false;
        }
        i += 1;
    }
    n == m
}

} // verus!
