use copy_paste::search::{search_buckets, search_same};
use copy_paste::{Expr, ExprKind, Span};

fn lit(id: u64, v: u64) -> Expr {
    Expr { id, span: Span { lo: id as u32, hi: id as u32 + 1, from_expansion: false }, kind: ExprKind::Lit(v) }
}

fn items(values: &[u64]) -> Vec<Expr> {
    values.iter().enumerate().map(|(i, v)| lit(i as u64, *v)).collect()
}

fn search(values: &[u64]) -> Option<(usize, usize)> {
    let exprs = items(values);
    let refs: Vec<&Expr> = exprs.iter().collect();
    search_same(&refs)
}

fn buckets(values: &[u64]) -> Option<(usize, usize)> {
    let exprs = items(values);
    let refs: Vec<&Expr> = exprs.iter().collect();
    search_buckets(&refs)
}

/// The pair described by the search's contract, found the slow way.
fn expected(values: &[u64]) -> Option<(usize, usize)> {
    for j in 0..values.len() {
        for i in 0..j {
            if values[i] == values[j] {
                return Some((i, j));
            }
        }
    }
    None
}

fn all_sequences(len: usize, alphabet: u64) -> Vec<Vec<u64>> {
    let mut out: Vec<Vec<u64>> = vec![vec![]];
    for _ in 0..len {
        let mut next = Vec::new();
        for s in &out {
            for v in 0..alphabet {
                let mut t = s.clone();
                t.push(v);
                next.push(t);
            }
        }
        out = next;
    }
    out
}

#[test]
fn no_pair_in_fewer_than_two_items() {
    assert_eq!(search(&[]), None);
    assert_eq!(search(&[7]), None);
    assert_eq!(buckets(&[]), None);
    assert_eq!(buckets(&[7]), None);
}

#[test]
fn two_items_are_a_pair_exactly_when_equivalent() {
    assert_eq!(search(&[3, 3]), Some((0, 1)));
    assert_eq!(search(&[3, 4]), None);
}

#[test]
fn fast_path_agrees_with_the_bucketed_scan() {
    for len in 0..=5 {
        for s in all_sequences(len, 3) {
            assert_eq!(search(&s), buckets(&s), "{:?}", s);
            assert_eq!(search(&s), expected(&s), "{:?}", s);
        }
    }
}

#[test]
fn the_earliest_pair_is_reported() {
    assert_eq!(search(&[1, 2, 2, 1]), Some((1, 2)));
    assert_eq!(search(&[1, 2, 1, 2]), Some((0, 2)));
    assert_eq!(search(&[5, 5, 5]), Some((0, 1)));
    assert_eq!(search(&[1, 2, 3, 4, 3, 1]), Some((2, 4)));
    assert_eq!(search(&[1, 2, 3, 4]), None);
}
