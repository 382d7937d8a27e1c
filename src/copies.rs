use vstd::prelude::*;

use crate::ast::{Arm, Block, Expr, ExprKind, MatchSource, Span};
use crate::bindings::{
    Binding, bindings, bindings_compatible, bindings_of, compatible, lemma_compatible_reflexive,
    lemma_compatible_symmetric, lemma_pat_bindings_distinct,
};
use crate::search::{Candidate, first_pair, search_same};
use crate::spanless_eq::{SpanlessEq, arm_names, block_eq, eq_expr_in, expr_eq, push_names};
use crate::spanless_hash::{HASH_SEED, block_hash, expr_hash, hash_block, hash_expr, hash_expr_in};
use crate::spanless_proofs::{
    expr_plain, lemma_block_hash, lemma_expr_eq_reflexive, lemma_expr_eq_symmetric, lemma_expr_hash,
};

verus! {

/// The three duplicate checks.
#[derive(Clone, Copy, Debug, PartialEq, Eq, Structural)]
pub enum Lint {
    /// Consecutive `if`s with the same condition.
    IfsSameCond,
    /// An `if` whose branches have the same body.
    IfSameThenElse,
    /// A `match` with identical arm bodies.
    MatchSameArms,
}

impl Lint {
    pub fn name(&self) -> (r: &'static str)
        ensures
            r@ == match *self {
                Lint::IfsSameCond => "ifs_same_cond"@,
                Lint::IfSameThenElse => "if_same_then_else"@,
                Lint::MatchSameArms => "match_same_arms"@,
            },
    {
        match self {
            Lint::IfsSameCond => "ifs_same_cond",
            Lint::IfSameThenElse => "if_same_then_else",
            Lint::MatchSameArms => "match_same_arms",
        }
    }

    /// The message shown at the later fragment.
    pub fn message(&self) -> (r: &'static str)
        ensures
            r@ == match *self {
                Lint::IfsSameCond => "this `if` has the same condition as a previous if"@,
                Lint::IfSameThenElse => "this `if` has identical blocks"@,
                Lint::MatchSameArms => "this `match` has identical arm bodies"@,
            },
    {
        match self {
            Lint::IfsSameCond => "this `if` has the same condition as a previous if",
            Lint::IfSameThenElse => "this `if` has identical blocks",
            Lint::MatchSameArms => "this `match` has identical arm bodies",
        }
    }

    /// The note shown at the earlier fragment.
    pub fn note(&self) -> (r: &'static str)
        ensures
            r@ == "same as this"@,
    {
        "same as this"
    }
}

/// A duplicate: the check that found it, the later fragment and the earlier
/// one that it repeats.
#[derive(Clone, Copy, Debug, PartialEq, Eq, Structural)]
pub struct Finding {
    pub lint: Lint,
    pub span: Span,
    pub original: Span,
}

/// A condition of an `if` chain. Conditions are compared with calls never
/// equivalent: a call may give another result when it is evaluated again.
impl Candidate for Expr {
    open spec fn same_spec(&self, other: &Self) -> bool {
        expr_eq(true, Seq::empty(), Seq::empty(), *self, *other)
    }

    open spec fn digest_spec(&self) -> u64 {
        expr_hash(HASH_SEED, Seq::empty(), *self)
    }

    proof fn lemma_same_digest(a: &Self, b: &Self) {
        lemma_expr_hash(true, Seq::empty(), Seq::empty(), *a, *b, HASH_SEED);
    }

    fn digest(&self) -> (r: u64) {
        hash_expr(self)
    }

    fn same(&self, other: &Self) -> (r: bool) {
        SpanlessEq::new().ignore_fn().eq_expr(self, other)
    }
}

/// A branch of an `if` chain.
impl Candidate for Block {
    open spec fn same_spec(&self, other: &Self) -> bool {
        block_eq(false, Seq::empty(), Seq::empty(), *self, *other)
    }

    open spec fn digest_spec(&self) -> u64 {
        block_hash(HASH_SEED, Seq::empty(), *self)
    }

    proof fn lemma_same_digest(a: &Self, b: &Self) {
        lemma_block_hash(false, Seq::empty(), Seq::empty(), *a, *b, HASH_SEED);
    }

    fn digest(&self) -> (r: u64) {
        hash_block(self)
    }

    fn same(&self, other: &Self) -> (r: bool) {
        SpanlessEq::new().eq_block(self, other)
    }
}

/// The bindings of an arm's first pattern.
pub open spec fn arm_bindings(a: Arm) -> Seq<Binding> {
    if a.pats@.len() > 0 {
        bindings_of(a.pats@[0])
    } else {
        Seq::empty()
    }
}

/// Two arms of one `match` are duplicates when their bindings are
/// compatible and their bodies are equivalent, each binding matched with
/// the binding at the same position of the other arm.
pub open spec fn arms_same(a: Arm, b: Arm) -> bool {
    &&& compatible(arm_bindings(a), arm_bindings(b))
    &&& expr_eq(false, arm_names(a), arm_names(b), a.body, b.body)
}

/// Whether two arms are duplicates does not depend on their order.
pub proof fn lemma_arms_same_symmetric(a: Arm, b: Arm)
    ensures
        arms_same(a, b) == arms_same(b, a),
{
    lemma_compatible_symmetric(arm_bindings(a), arm_bindings(b));
    lemma_expr_eq_symmetric(false, arm_names(a), arm_names(b), a.body, b.body);
}

/// An arm duplicates an exact copy of itself, where its body holds no node
/// that the comparison never matches and the types of its bindings all
/// resolved.
pub proof fn lemma_arms_same_reflexive(a: Arm)
    requires
        expr_plain(false, a.body),
        forall|i: int| 0 <= i < arm_bindings(a).len() ==> (#[trigger] arm_bindings(a)[i].ty) is Some,
    ensures
        arms_same(a, a),
{
    if a.pats@.len() > 0 {
        lemma_pat_bindings_distinct(Seq::empty(), a.pats@[0]);
    }
    lemma_compatible_reflexive(arm_bindings(a));
    lemma_expr_eq_reflexive(false, arm_names(a), a.body);
}

/// Two arms whose patterns bind one name to different types are never
/// duplicates, whatever their bodies.
pub proof fn lemma_binding_types_differ(a: Arm, b: Arm, i: int, j: int)
    requires
        0 <= i < arm_bindings(a).len(),
        0 <= j < arm_bindings(b).len(),
        arm_bindings(a)[i].name == arm_bindings(b)[j].name,
        arm_bindings(a)[i].ty != arm_bindings(b)[j].ty,
    ensures
        !arms_same(a, b),
{
}

fn first_bindings(a: &Arm) -> (r: Vec<Binding>)
    ensures
        r@ == arm_bindings(*a),
{
    if a.pats.len() > 0 {
        bindings(&a.pats[0])
    } else {
        Vec::new()
    }
}

/// An arm of a `match`: its body is what is compared.
impl Candidate for Arm {
    open spec fn same_spec(&self, other: &Self) -> bool {
        arms_same(*self, *other)
    }

    open spec fn digest_spec(&self) -> u64 {
        expr_hash(HASH_SEED, arm_names(*self), self.body)
    }

    proof fn lemma_same_digest(a: &Self, b: &Self) {
        lemma_expr_hash(false, arm_names(*a), arm_names(*b), a.body, b.body, HASH_SEED);
    }

    fn digest(&self) -> (r: u64) {
        let bs = first_bindings(self);
        let mut env: Vec<u64> = Vec::new();
        push_names(&mut env, &bs);
        assert(env@ =~= arm_names(*self));
        hash_expr_in(HASH_SEED, &mut env, &self.body)
    }

    fn same(&self, other: &Self) -> (r: bool) {
        let lb = first_bindings(self);
        let rb = first_bindings(other);
        if !bindings_compatible(&lb, &rb) {
            return false;
        }
        let mut el: Vec<u64> = Vec::new();
        let mut er: Vec<u64> = Vec::new();
        push_names(&mut el, &lb);
        push_names(&mut er, &rb);
        assert(el@ =~= arm_names(*self));
        assert(er@ =~= arm_names(*other));
        eq_expr_in(false, &mut el, &mut er, &self.body, &other.body)
    }
}

/// The conditions of an `if` / `else if` chain, in order.
pub open spec fn chain_conds(e: &Expr) -> Seq<&Expr>
    decreases e,
{
    match &e.kind {
        ExprKind::If(c, _, Some(el)) => seq![&**c] + chain_conds(&**el),
        ExprKind::If(c, _, None) => seq![&**c],
        _ => Seq::empty(),
    }
}

/// The blocks of an `if` chain from one of its links on, with the final
/// `else` block if there is one.
pub open spec fn link_blocks(e: &Expr) -> Seq<&Block>
    decreases e,
{
    match &e.kind {
        ExprKind::If(_, t, Some(el)) => seq![&**t] + link_blocks(&**el),
        ExprKind::If(_, t, None) => seq![&**t],
        ExprKind::Block(b) => seq![&**b],
        _ => Seq::empty(),
    }
}

/// The blocks of an `if` chain, in order; none where `e` is no `if`.
pub open spec fn chain_blocks(e: &Expr) -> Seq<&Block> {
    match &e.kind {
        ExprKind::If(..) => link_blocks(e),
        _ => Seq::empty(),
    }
}

/// The conditions and the blocks of an `if` / `else if` / `else` chain:
/// for `if a { c } else if b { d } else { e }`, `[a, b]` and `[c, d, e]`.
pub fn if_sequence(expr: &Expr) -> (r: (Vec<&Expr>, Vec<&Block>))
    ensures
        r.0@ == chain_conds(expr),
        r.1@ == chain_blocks(expr),
{
    let mut conds: Vec<&Expr> = Vec::new();
    let mut blocks: Vec<&Block> = Vec::new();
    let mut cur: &Expr = expr;
    match &cur.kind {
        ExprKind::If(..) => {},
        _ => {
            return (conds, blocks);
        },
    }
    loop
        invariant
            cur.kind is If,
            chain_conds(expr) == conds@ + chain_conds(cur),
            chain_blocks(expr) == blocks@ + link_blocks(cur),
        decreases cur,
    {
        match &cur.kind {
            ExprKind::If(c, t, Some(el)) => {
                let ghost c0 = conds@;
                let ghost b0 = blocks@;
                conds.push(&**c);
                blocks.push(&**t);
                assert(conds@ + chain_conds(&**el) =~= c0 + chain_conds(cur));
                assert(blocks@ + link_blocks(&**el) =~= b0 + link_blocks(cur));
                match &el.kind {
                    ExprKind::If(..) => {
                        cur = &**el;
                    },
                    ExprKind::Block(b) => {
                        blocks.push(&**b);
                        assert(conds@ =~= conds@ + chain_conds(&**el));
                        assert(blocks@ =~= b0 + link_blocks(cur));
                        return (conds, blocks);
                    },
                    _ => {
                        assert(conds@ =~= conds@ + chain_conds(&**el));
                        assert(blocks@ =~= blocks@ + link_blocks(&**el));
                        return (conds, blocks);
                    },
                }
            },
            ExprKind::If(c, t, None) => {
                conds.push(&**c);
                blocks.push(&**t);
                return (conds, blocks);
            },
            _ => {
                return (conds, blocks);
            },
        }
    }
}

/// The `if_same_then_else` finding for the blocks of a chain.
pub open spec fn then_else_finding(s: Seq<&Block>) -> Option<Finding> {
    match first_pair(s) {
        Some((i, j)) => Some(
            Finding { lint: Lint::IfSameThenElse, span: s[j as int].span, original: s[i as int].span },
        ),
        None => None,
    }
}

/// The `ifs_same_cond` finding for the conditions of a chain.
pub open spec fn same_cond_finding(s: Seq<&Expr>) -> Option<Finding> {
    match first_pair(s) {
        Some((i, j)) => Some(
            Finding { lint: Lint::IfsSameCond, span: s[j as int].span, original: s[i as int].span },
        ),
        None => None,
    }
}

/// The `match_same_arms` finding for the arms of a `match`.
pub open spec fn same_arms_finding(s: Seq<&Arm>) -> Option<Finding> {
    match first_pair(s) {
        Some((i, j)) => Some(
            Finding {
                lint: Lint::MatchSameArms,
                span: s[j as int].body.span,
                original: s[i as int].body.span,
            },
        ),
        None => None,
    }
}

/// References to the arms, in order.
pub open spec fn arm_refs<'a>(arms: &'a Vec<Arm>) -> Seq<&'a Arm> {
    Seq::new(arms@.len(), |i: int| &arms[i])
}

/// The `match_same_arms` finding for `e`: only a `match` that the user
/// wrote is looked at.
pub open spec fn match_finding(e: &Expr) -> Option<Finding> {
    match &e.kind {
        ExprKind::Match(_, arms, MatchSource::Normal) => same_arms_finding(arm_refs(arms)),
        _ => None,
    }
}

/// Reports the first block of a chain that repeats an earlier one.
pub fn lint_same_then_else(blocks: &Vec<&Block>) -> (r: Option<Finding>)
    ensures
        r == then_else_finding(blocks@),
{
    match search_same(blocks) {
        Some((i, j)) => Some(
            Finding { lint: Lint::IfSameThenElse, span: blocks[j].span, original: blocks[i].span },
        ),
        None => None,
    }
}

/// Reports the first condition of a chain that repeats an earlier one.
pub fn lint_same_cond(conds: &Vec<&Expr>) -> (r: Option<Finding>)
    ensures
        r == same_cond_finding(conds@),
{
    match search_same(conds) {
        Some((i, j)) => Some(
            Finding { lint: Lint::IfsSameCond, span: conds[j].span, original: conds[i].span },
        ),
        None => None,
    }
}

/// Reports the first arm of a user-written `match` whose body repeats an
/// earlier arm's.
pub fn lint_match_arms(expr: &Expr) -> (r: Option<Finding>)
    ensures
        r == match_finding(expr),
{
    match &expr.kind {
        ExprKind::Match(_, arms, MatchSource::Normal) => {
            let mut refs: Vec<&Arm> = Vec::new();
            let mut i: usize = 0;
            while i < arms.len()
                invariant
                    i <= arms@.len(),
                    refs@ =~= arm_refs(arms).subrange(0, i as int),
                decreases arms.len() - i,
            {
                refs.push(&arms[i]);
                i += 1;
            }
            assert(refs@ =~= arm_refs(arms));
            match search_same(&refs) {
                Some((i, j)) => Some(
                    Finding {
                        lint: Lint::MatchSameArms,
                        span: refs[j].body.span,
                        original: refs[i].body.span,
                    },
                ),
                None => None,
            }
        },
        _ => None,
    }
}

/// The finding, if any, as a sequence of zero or one.
pub open spec fn opt_seq(f: Option<Finding>) -> Seq<Finding> {
    match f {
        Some(x) => seq![x],
        None => Seq::empty(),
    }
}

/// `e` is the `else` branch of `parent`.
pub open spec fn is_else_of(e: &Expr, parent: Option<&Expr>) -> bool {
    match parent {
        Some(p) => match &p.kind {
            ExprKind::If(_, _, Some(el)) => el.id == e.id,
            _ => false,
        },
        None => false,
    }
}

/// What the checks report on `e`, visited below `parent`.
pub open spec fn findings(e: &Expr, parent: Option<&Expr>) -> Seq<Finding> {
    if e.span.from_expansion || is_else_of(e, parent) {
        Seq::empty()
    } else {
        let (conds, blocks) = (chain_conds(e), chain_blocks(e));
        opt_seq(then_else_finding(blocks)) + opt_seq(same_cond_finding(conds)) + opt_seq(
            match_finding(e),
        )
    }
}

/// The duplicate checks, run on each expression that a traversal visits.
#[derive(Clone, Copy, Debug)]
pub struct CopyAndPaste;

impl CopyAndPaste {
    /// The checks that this pass runs.
    pub fn get_lints(&self) -> (r: Vec<Lint>)
        ensures
            r@ == seq![Lint::IfsSameCond, Lint::IfSameThenElse, Lint::MatchSameArms],
    {
        let mut v: Vec<Lint> = Vec::new();
        v.push(Lint::IfsSameCond);
        v.push(Lint::IfSameThenElse);
        v.push(Lint::MatchSameArms);
        assert(v@ =~= seq![Lint::IfsSameCond, Lint::IfSameThenElse, Lint::MatchSameArms]);
        v
    }

    /// Runs the checks on `expr`, whose parent expression is `parent`.
    /// Generated code is skipped, and so is an `if` that is the `else`
    /// branch of its parent: the parent's chain covers it.
    pub fn check_expr(&self, expr: &Expr, parent: Option<&Expr>) -> (r: Vec<Finding>)
        ensures
            r@ == findings(expr, parent),
            is_else_of(expr, parent) ==> r@.len() == 0,
            expr.span.from_expansion ==> r@.len() == 0,
    {
        let mut out: Vec<Finding> = Vec::new();
        if expr.span.from_expansion {
            return out;
        }
        if let Some(p) = parent {
            if let ExprKind::If(_, _, Some(el)) = &p.kind {
                if el.id == expr.id {
                    return out;
                }
            }
        }
        let (conds, blocks) = if_sequence(expr);
        if let Some(f) = lint_same_then_else(&blocks) {
            out.push(f);
        }
        if let Some(f) = lint_same_cond(&conds) {
            out.push(f);
        }
        if let Some(f) = lint_match_arms(expr) {
            out.push(f);
        }
        assert(out@ =~= findings(expr, parent));
        out
    }
}

} // verus!
