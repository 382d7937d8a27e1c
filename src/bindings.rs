use vstd::prelude::*;

use crate::ast::Pat;

verus! {

/// A name that a pattern binds, with the type that it was resolved to
/// (`None` where the type could not be resolved).
#[derive(Clone, Copy, Debug, PartialEq, Eq, Structural)]
pub struct Binding {
    pub name: u64,
    pub ty: Option<u64>,
}

pub open spec fn binds_name(s: Seq<Binding>, name: u64) -> bool {
    exists|i: int| 0 <= i < s.len() && s[i].name == name
}

/// Adds a binding unless its name is already recorded: the first
/// occurrence of a name wins.
pub open spec fn record(acc: Seq<Binding>, b: Binding) -> Seq<Binding> {
    if binds_name(acc, b.name) {
        acc
    } else {
        acc.push(b)
    }
}

/// The bindings of `p`, in the order in which they are met, appended to `acc`.
pub open spec fn pat_bindings(acc: Seq<Binding>, p: Pat) -> Seq<Binding>
    decreases p,
{
    match p {
        Pat::Ident(name, ty, sub) => {
            let acc = record(acc, Binding { name, ty });
            match sub {
                Some(s) => pat_bindings(acc, *s),
                None => acc,
            }
        },
        Pat::Struct(_, _, pats, _) => pats_bindings(acc, pats@),
        Pat::TupleStruct(_, Some(pats)) => pats_bindings(acc, pats@),
        Pat::Tuple(pats) => pats_bindings(acc, pats@),
        Pat::Box(s) => pat_bindings(acc, *s),
        Pat::Ref(s) => pat_bindings(acc, *s),
        Pat::Slice(before, mid, after) => {
            let acc = pats_bindings(acc, before@);
            let acc = match mid {
                Some(m) => pat_bindings(acc, *m),
                None => acc,
            };
            pats_bindings(acc, after@)
        },
        _ => acc,
    }
}

pub open spec fn pats_bindings(acc: Seq<Binding>, ps: Seq<Pat>) -> Seq<Binding>
    decreases ps,
{
    if ps.len() == 0 {
        acc
    } else {
        pats_bindings(pat_bindings(acc, ps[0]), ps.drop_first())
    }
}

/// The bindings that a pattern introduces, in the order met, each name once.
pub open spec fn bindings_of(p: Pat) -> Seq<Binding> {
    pat_bindings(Seq::empty(), p)
}

pub open spec fn binding_names(s: Seq<Binding>) -> Seq<u64> {
    s.map_values(|b: Binding| b.name)
}

pub open spec fn distinct_names(s: Seq<Binding>) -> bool {
    forall|i: int, j: int| 0 <= i < j < s.len() ==> s[i].name != s[j].name
}

/// Two binding lists are compatible when they bind as many names, position
/// by position to the same resolved type, and no name is bound by both to
/// different types. Names are matched by position, as the comparison of
/// bodies matches them.
pub open spec fn compatible(a: Seq<Binding>, b: Seq<Binding>) -> bool {
    &&& a.len() == b.len()
    &&& forall|i: int| 0 <= i < a.len() ==> (#[trigger] a[i].ty) is Some && a[i].ty == b[i].ty
    &&& forall|i: int, j: int|
        0 <= i < a.len() && 0 <= j < b.len() && #[trigger] a[i].name == #[trigger] b[j].name
            ==> a[i].ty == b[j].ty
}

proof fn lemma_record_distinct(acc: Seq<Binding>, b: Binding)
    requires
        distinct_names(acc),
    ensures
        distinct_names(record(acc, b)),
{
    if !binds_name(acc, b.name) {
        assert forall|i: int| 0 <= i < acc.len() implies acc[i].name != b.name by {
            if acc[i].name == b.name {
                assert(binds_name(acc, b.name));
            }
        }
    }
}

/// A pattern's bindings never name one name twice.
pub proof fn lemma_pat_bindings_distinct(acc: Seq<Binding>, p: Pat)
    requires
        distinct_names(acc),
    ensures
        distinct_names(pat_bindings(acc, p)),
    decreases p,
{
    match p {
        Pat::Ident(name, ty, sub) => {
            lemma_record_distinct(acc, Binding { name, ty });
            if let Some(s) = sub {
                lemma_pat_bindings_distinct(record(acc, Binding { name, ty }), *s);
            }
        },
        Pat::Struct(_, _, pats, _) => lemma_pats_bindings_distinct(acc, pats@),
        Pat::TupleStruct(_, Some(pats)) => lemma_pats_bindings_distinct(acc, pats@),
        Pat::Tuple(pats) => lemma_pats_bindings_distinct(acc, pats@),
        Pat::Box(s) => lemma_pat_bindings_distinct(acc, *s),
        Pat::Ref(s) => lemma_pat_bindings_distinct(acc, *s),
        Pat::Slice(before, mid, after) => {
            lemma_pats_bindings_distinct(acc, before@);
            let acc = pats_bindings(acc, before@);
            if let Some(m) = mid {
                lemma_pat_bindings_distinct(acc, *m);
                lemma_pats_bindings_distinct(pat_bindings(acc, *m), after@);
            } else {
                lemma_pats_bindings_distinct(acc, after@);
            }
        },
        _ => {},
    }
}

pub proof fn lemma_pats_bindings_distinct(acc: Seq<Binding>, ps: Seq<Pat>)
    requires
        distinct_names(acc),
    ensures
        distinct_names(pats_bindings(acc, ps)),
    decreases ps,
{
    if ps.len() > 0 {
        lemma_pat_bindings_distinct(acc, ps[0]);
        lemma_pats_bindings_distinct(pat_bindings(acc, ps[0]), ps.drop_first());
    }
}

/// Compatibility of binding lists does not depend on their order.
pub proof fn lemma_compatible_symmetric(a: Seq<Binding>, b: Seq<Binding>)
    ensures
        compatible(a, b) == compatible(b, a),
{
    if compatible(a, b) {
        assert forall|i: int, j: int|
            0 <= i < b.len() && 0 <= j < a.len() && #[trigger] b[i].name == #[trigger] a[j].name
                implies b[i].ty == a[j].ty by {
            assert(a[j].name == b[i].name);
        }
    }
    if compatible(b, a) {
        assert forall|i: int, j: int|
            0 <= i < a.len() && 0 <= j < b.len() && #[trigger] a[i].name == #[trigger] b[j].name
                implies a[i].ty == b[j].ty by {
            assert(b[j].name == a[i].name);
        }
    }
}

/// A list of bindings whose names are distinct and whose types all
/// resolved is compatible with itself.
pub proof fn lemma_compatible_reflexive(a: Seq<Binding>)
    requires
        distinct_names(a),
        forall|i: int| 0 <= i < a.len() ==> (#[trigger] a[i].ty) is Some,
    ensures
        compatible(a, a),
{
    assert forall|i: int, j: int|
        0 <= i < a.len() && 0 <= j < a.len() && #[trigger] a[i].name == #[trigger] a[j].name
            implies a[i].ty == a[j].ty by {
        if i < j {
            assert(a[i].name != a[j].name);
        } else if j < i {
            assert(a[j].name != a[i].name);
        }
    }
}

fn record_binding(acc: &mut Vec<Binding>, b: Binding)
    ensures
        final(acc)@ == record(old(acc)@, b),
{
    let mut i: usize = 0;
    while i < acc.len()
        invariant
            i <= acc.len(),
            acc@ == old(acc)@,
            forall|k: int| 0 <= k < i ==> acc@[k].name != b.name,
        decreases acc.len() - i,
    {
        if acc[i].name == b.name {
            return;
        }
        i += 1;
    }
    acc.push(b);
}

fn collect_bindings(p: &Pat, acc: &mut Vec<Binding>)
    ensures
        final(acc)@ == pat_bindings(old(acc)@, *p),
    decreases p,
{
    match p {
        Pat::Ident(name, ty, sub) => {
            record_binding(acc, Binding { name: *name, ty: *ty });
            if let Some(s) = sub {
                collect_bindings(s, acc);
            }
        },
        Pat::Struct(_, _, pats, _) => collect_all(pats, acc),
        Pat::TupleStruct(_, Some(pats)) => collect_all(pats, acc),
        Pat::Tuple(pats) => collect_all(pats, acc),
        Pat::Box(s) => collect_bindings(s, acc),
        Pat::Ref(s) => collect_bindings(s, acc),
        Pat::Slice(before, mid, after) => {
            collect_all(before, acc);
            if let Some(m) = mid {
                collect_bindings(m, acc);
            }
            collect_all(after, acc);
        },
        _ => {},
    }
}

fn collect_all(ps: &Vec<Pat>, acc: &mut Vec<Binding>)
    ensures
        final(acc)@ == pats_bindings(old(acc)@, ps@),
    decreases ps,
{
    let n = ps.len();
    let mut i: usize = 0;
    assert(ps@.subrange(0, n as int) =~= ps@);
    while i < n
        invariant
            n == ps@.len(),
            i <= n,
            pats_bindings(old(acc)@, ps@) == pats_bindings(acc@, ps@.subrange(i as int, n as int)),
        decreases n - i,
    {
        assert(ps@.subrange(i as int, n as int).drop_first() =~= ps@.subrange(i + 1, n as int));
        collect_bindings(&ps[i], acc);
        i += 1;
    }
    assert(ps@.subrange(n as int, n as int) =~= Seq::<Pat>::empty());
}

/// The bindings that `pat` introduces, in the order in which they are met;
/// a name that occurs twice is recorded with its first occurrence.
pub fn bindings(pat: &Pat) -> (r: Vec<Binding>)
    ensures
        r@ == bindings_of(*pat),
{
    let mut acc: Vec<Binding> = Vec::new();
    collect_bindings(pat, &mut acc);
    acc
}

/// Tells whether two binding lists are compatible.
pub fn bindings_compatible(a: &Vec<Binding>, b: &Vec<Binding>) -> (r: bool)
    ensures
        r == compatible(a@, b@),
{
    if a.len() != b.len() {
        return false;
    }
    let mut i: usize = 0;
    while i < a.len()
        invariant
            a@.len() == b@.len(),
            i <= a.len(),
            forall|k: int| 0 <= k < i ==> (#[trigger] a@[k].ty) is Some && a@[k].ty == b@[k].ty,
        decreases a.len() - i,
    {
        match (a[i].ty, b[i].ty) {
            (Some(x), Some(y)) => {
                if x != y {
                    return false;
                }
            },
            _ => {
                return false;
            },
        }
        i += 1;
    }
    let mut i: usize = 0;
    while i < a.len()
        invariant
            a@.len() == b@.len(),
            i <= a.len(),
            forall|k: int| 0 <= k < a@.len() ==> (#[trigger] a@[k].ty) is Some && a@[k].ty == b@[k].ty,
            forall|k: int, l: int|
                0 <= k < i && 0 <= l < b@.len() && #[trigger] a@[k].name == #[trigger] b@[l].name
                    ==> a@[k].ty == b@[l].ty,
        decreases a.len() - i,
    {
        let mut j: usize = 0;
        while j < b.len()
            invariant
                a@.len() == b@.len(),
                i < a.len(),
                j <= b.len(),
                forall|k: int, l: int|
                    0 <= k < i && 0 <= l < b@.len() && #[trigger] a@[k].name == #[trigger] b@[l].name
                        ==> a@[k].ty == b@[l].ty,
                forall|l: int| 0 <= l < j && a@[i as int].name == #[trigger] b@[l].name ==> a@[i as int].ty == b@[l].ty,
            decreases b.len() - j,
        {
            if a[i].name == b[j].name && a[i].ty != b[j].ty {
                return false;
            }
            j += 1;
        }
        i += 1;
    }
    true
}

} // verus!
