use vstd::prelude::*;

use std::collections::HashMap;

verus! {

broadcast use vstd::std_specs::hash::group_hash_axioms;

/// A fragment that takes part in a duplicate search: it has a digest and a
/// duplicate test, and two duplicates always have the same digest.
pub trait Candidate: Sized {
    spec fn same_spec(&self, other: &Self) -> bool;

    spec fn digest_spec(&self) -> u64;

    proof fn lemma_same_digest(a: &Self, b: &Self)
        requires
            a.same_spec(b),
        ensures
            a.digest_spec() == b.digest_spec(),
    ;

    fn digest(&self) -> (r: u64)
        ensures
            r == self.digest_spec(),
    ;

    fn same(&self, other: &Self) -> (r: bool)
        ensures
            r == self.same_spec(other),
    ;
}

/// Item `j` duplicates the earlier item `i`.
pub open spec fn is_dup<T: Candidate>(s: Seq<&T>, i: int, j: int) -> bool {
    0 <= i < j < s.len() && s[i].same_spec(s[j])
}

/// `r` is the pair that a scan from left to right meets first: its later
/// item is the earliest item that duplicates an earlier one, and its earlier
/// item is the first of those that the later one duplicates. `None` when no
/// item duplicates another.
pub open spec fn first_dup<T: Candidate>(s: Seq<&T>, r: Option<(usize, usize)>) -> bool {
    match r {
        None => forall|i: int, j: int| !is_dup(s, i, j),
        Some((i, j)) => {
            &&& is_dup(s, i as int, j as int)
            &&& forall|a: int, b: int| b < j ==> !is_dup(s, a, b)
            &&& forall|a: int| a < i ==> !is_dup(s, a, j as int)
        },
    }
}

/// The pair that a scan from left to right meets first, if any.
pub open spec fn first_pair<T: Candidate>(s: Seq<&T>) -> Option<(usize, usize)> {
    choose|r: Option<(usize, usize)>| first_dup(s, r)
}

/// At most one result answers the description of `first_dup`.
pub proof fn lemma_first_dup_unique<T: Candidate>(
    s: Seq<&T>,
    r1: Option<(usize, usize)>,
    r2: Option<(usize, usize)>,
)
    requires
        first_dup(s, r1),
        first_dup(s, r2),
    ensures
        r1 == r2,
{
    match (r1, r2) {
        (Some((i1, j1)), Some((i2, j2))) => {
            if j1 < j2 {
                assert(!is_dup(s, i1 as int, j1 as int));
            } else if j2 < j1 {
                assert(!is_dup(s, i2 as int, j2 as int));
            } else if i1 < i2 {
                assert(!is_dup(s, i1 as int, j2 as int));
            } else if i2 < i1 {
                assert(!is_dup(s, i2 as int, j1 as int));
            }
        },
        (Some((i, j)), None) => {
            assert(!is_dup(s, i as int, j as int));
        },
        (None, Some((i, j))) => {
            assert(!is_dup(s, i as int, j as int));
        },
        (None, None) => {},
    }
}

/// A result that answers the description of `first_dup` is `first_pair`.
pub proof fn lemma_first_pair<T: Candidate>(s: Seq<&T>, r: Option<(usize, usize)>)
    requires
        first_dup(s, r),
    ensures
        first_pair(s) == r,
{
    lemma_first_dup_unique(s, first_pair(s), r);
}

/// With two items, the search reports them exactly when they are
/// duplicates of one another.
pub proof fn lemma_two_items<T: Candidate>(s: Seq<&T>)
    requires
        s.len() == 2,
    ensures
        first_pair(s) == (if s[0].same_spec(s[1]) {
            Some((0usize, 1usize))
        } else {
            None
        }),
{
    if s[0].same_spec(s[1]) {
        assert(is_dup(s, 0, 1));
        lemma_first_pair(s, Some((0usize, 1usize)));
    } else {
        lemma_first_pair(s, None);
    }
}

/// The pair that the search reports (see `search_same`) is made of an
/// item that no earlier item duplicates and the first later item that
/// duplicates it; no pair of items ends before the reported one.
pub proof fn lemma_earliest_pair<T: Candidate>(s: Seq<&T>, i: usize, j: usize)
    requires
        first_dup(s, Some((i, j))),
    ensures
        is_dup(s, i as int, j as int),
        forall|a: int| 0 <= a < i ==> !is_dup(s, a, i as int) && !is_dup(s, a, j as int),
        forall|b: int| i < b < j ==> !is_dup(s, i as int, b),
        forall|a: int, b: int| 0 <= a < b < j ==> !is_dup(s, a, b),
{
}

/// The buckets so far: each bucket lists, in increasing order, the items
/// before `j` whose digest is its key, and every item before `j` is listed.
pub open spec fn buckets_ok<T: Candidate>(s: Seq<&T>, m: Map<u64, Vec<usize>>, j: int) -> bool {
    &&& forall|h: u64, p: int, q: int|
        #![trigger m[h]@[p], m[h]@[q]]
        m.contains_key(h) && 0 <= p < q < m[h]@.len() ==> m[h]@[p] < m[h]@[q]
    &&& forall|h: u64, p: int|
        #![trigger m[h]@[p]]
        m.contains_key(h) && 0 <= p < m[h]@.len() ==> m[h]@[p] < j && s[m[h]@[p] as int].digest_spec()
            == h
    &&& forall|k: int|
        0 <= k < j ==> m.contains_key(#[trigger] s[k].digest_spec()) && m[s[k].digest_spec()]@.contains(
            k as usize,
        )
}

/// Finds one pair of duplicates among `items`: the first that a scan from
/// left to right meets. Two items are compared directly; more are sorted
/// into buckets by digest as they are scanned.
pub fn search_same<T: Candidate>(items: &Vec<&T>) -> (r: Option<(usize, usize)>)
    ensures
        first_dup(items@, r),
        r == first_pair(items@),
{
    let r = if items.len() < 2 {
        None
    } else if items.len() == 2 {
        let a: &T = items[0];
        let b: &T = items[1];
        if a.same(b) {
            Some((0, 1))
        } else {
            None
        }
    } else {
        search_buckets(items)
    };
    proof {
        lemma_first_pair(items@, r);
    }
    r
}

/// The bucketed scan, for any number of items: each item is compared, in
/// order of insertion, with the earlier items of the same digest.
pub fn search_buckets<T: Candidate>(items: &Vec<&T>) -> (r: Option<(usize, usize)>)
    ensures
        first_dup(items@, r),
        r == first_pair(items@),
{
    let r = scan_buckets(items);
    proof {
        lemma_first_pair(items@, r);
    }
    r
}

fn scan_buckets<T: Candidate>(items: &Vec<&T>) -> (r: Option<(usize, usize)>)
    ensures
        first_dup(items@, r),
{
    let ghost s = items@;
    let n = items.len();
    let mut map: HashMap<u64, Vec<usize>> = HashMap::with_capacity(n);
    let mut j: usize = 0;
    while j < n
        invariant
            s == items@,
            n == s.len(),
            j <= n,
            forall|a: int, b: int| b < j ==> !is_dup(s, a, b),
            buckets_ok(s, map@, j as int),
        decreases n - j,
    {
        let x: &T = items[j];
        let h = x.digest();
        let old_map = Ghost(map@);
        match map.remove(&h) {
            Some(mut bucket) => {
                assert(bucket@ == old_map@[h]@);
                let mut p: usize = 0;
                while p < bucket.len()
                    invariant
                        s == items@,
                        n == s.len(),
                        j < n,
                        x == s[j as int],
                        h == x.digest_spec(),
                        bucket@ == old_map@[h]@,
                        old_map@.contains_key(h),
                        buckets_ok(s, old_map@, j as int),
                        forall|a: int, b: int| b < j ==> !is_dup(s, a, b),
                        p <= bucket@.len(),
                        forall|q: int| 0 <= q < p ==> !s[bucket@[q] as int].same_spec(x),
                    decreases bucket.len() - p,
                {
                    let i = bucket[p];
                    let y: &T = items[i];
                    if y.same(x) {
                        proof {
                            assert forall|a: int| a < i implies !is_dup(s, a, j as int) by {
                                if is_dup(s, a, j as int) {
                                    T::lemma_same_digest(s[a], s[j as int]);
                                    assert(old_map@[h]@.contains(a as usize));
                                    let q = choose|q: int|
                                        0 <= q < old_map@[h]@.len() && old_map@[h]@[q] == a as usize;
                                    if q >= p {
                                        if q > p {
                                            assert(old_map@[h]@[p as int] < old_map@[h]@[q]);
                                        }
                                    }
                                }
                            }
                        }
                        return Some((i, j));
                    }
                    p += 1;
                }
                proof {
                    assert forall|a: int| a < j + 1 implies !is_dup(s, a, j as int) by {
                        if is_dup(s, a, j as int) {
                            T::lemma_same_digest(s[a], s[j as int]);
                            assert(old_map@[h]@.contains(a as usize));
                        }
                    }
                }
                bucket.push(j);
                map.insert(h, bucket);
                proof {
                    assert forall|b: int, a: int| b < j + 1 implies !is_dup(s, a, b) by {
                        if b == j {
                            assert(a < j + 1 ==> !is_dup(s, a, j as int));
                        }
                    }
                    assert forall|k: int| 0 <= k < j + 1 implies map@.contains_key(
                        #[trigger] s[k].digest_spec(),
                    ) && map@[s[k].digest_spec()]@.contains(k as usize) by {
                        if k == j {
                            assert(map@[h]@[map@[h]@.len() - 1] == j);
                        } else if s[k].digest_spec() == h {
                            let q = choose|q: int|
                                0 <= q < old_map@[h]@.len() && old_map@[h]@[q] == k as usize;
                            assert(map@[h]@[q] == k as usize);
                        }
                    }
                }
            },
            None => {
                proof {
                    assert forall|a: int| a < j + 1 implies !is_dup(s, a, j as int) by {
                        if is_dup(s, a, j as int) {
                            T::lemma_same_digest(s[a], s[j as int]);
                        }
                    }
                }
                let mut bucket: Vec<usize> = Vec::new();
                bucket.push(j);
                map.insert(h, bucket);
                proof {
                    assert forall|b: int, a: int| b < j + 1 implies !is_dup(s, a, b) by {
                        if b == j {
                            assert(a < j + 1 ==> !is_dup(s, a, j as int));
                        }
                    }
                    assert forall|k: int| 0 <= k < j + 1 implies map@.contains_key(
                        #[trigger] s[k].digest_spec(),
                    ) && map@[s[k].digest_spec()]@.contains(k as usize) by {
                        if k == j {
                            assert(map@[h]@[0] == j);
                        }
                    }
                }
            },
        }
        j += 1;
    }
    None
}

} // verus!
