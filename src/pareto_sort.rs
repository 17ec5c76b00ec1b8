//! Ordering of overview rows, including a weighted score over four metrics.
use vstd::prelude::*;

use itertools::Itertools;

use crate::types::{OverviewRow, RowView};

verus! {

/// Weights of profit per execution, total profit, total time in hundredths of
/// an hour, and earnings per hour.
pub type Weights = [i32; 4];

/// Stand-in for an unknown total time, later than any known one.
pub const UNKNOWN_TIME_KEY: i64 = 0x4000_0000_0000_0000;

/// Total time used for ordering: unknown times come last.
pub open spec fn time_key(row: RowView) -> int {
    match row.total_time_spec() {
        Some(h) => h,
        None => UNKNOWN_TIME_KEY as int,
    }
}

/// Weighted sum of the four metrics of a row; an unknown time counts as zero.
pub open spec fn score(row: RowView, weights: Seq<i32>) -> int {
    let hours = match row.total_time_spec() {
        Some(h) => h,
        None => 0,
    };
    weights[0] * row.profit + weights[1] * row.total_gp_spec() + weights[2] * hours + weights[3] * row.gph_spec()
}

/// A key to sort rows by: a name, then a number.
#[derive(Debug, Clone, Copy)]
pub enum RowOrder {
    ByName,
    ByTotalGp,
    ByTime,
    ByGph,
    ByScore(Weights),
}

/// Strict lexicographic order of character sequences, by code point.
pub open spec fn seq_lt(a: Seq<char>, b: Seq<char>) -> bool
    decreases a.len(),
{
    if b.len() == 0 {
        false
    } else if a.len() == 0 {
        true
    } else if (a[0] as u32) < (b[0] as u32) {
        true
    } else if (a[0] as u32) > (b[0] as u32) {
        false
    } else {
        seq_lt(a.drop_first(), b.drop_first())
    }
}

pub open spec fn name_le(a: Seq<char>, b: Seq<char>) -> bool {
    seq_lt(a, b) || a == b
}

/// The key a row is sorted by.
pub open spec fn row_key(row: RowView, order: RowOrder) -> (Seq<char>, int) {
    match order {
        RowOrder::ByName => (row.name, 0),
        RowOrder::ByTotalGp => (Seq::empty(), row.total_gp_spec()),
        RowOrder::ByTime => (Seq::empty(), time_key(row)),
        RowOrder::ByGph => (Seq::empty(), row.gph_spec()),
        RowOrder::ByScore(w) => (Seq::empty(), score(row, w@)),
    }
}

/// Order of keys: by name, then by number, as tuples of `String` and `i128`
/// compare.
pub open spec fn key_le(a: (Seq<char>, int), b: (Seq<char>, int)) -> bool {
    seq_lt(a.0, b.0) || (a.0 == b.0 && a.1 <= b.1)
}

/// Keys without a name compare by their numbers.
pub proof fn lemma_numeric_key_le(a: (Seq<char>, int), b: (Seq<char>, int))
    requires
        a.0 == Seq::<char>::empty(),
        b.0 == Seq::<char>::empty(),
        key_le(a, b),
    ensures
        a.1 <= b.1,
{
    assert(!seq_lt(a.0, b.0));
}

/// Weighted sum of the four metrics of a well-formed row.
pub fn lin_scalarization(x: &OverviewRow, weights: &Weights) -> (r: i128)
    requires
        x.wf(),
    ensures
        r == score(x@, weights@),
{
    let hours: i128 = match x.total_time() {
        Some(h) => h as i128,
        None => 0,
    };
    let total_gp: i64 = x.total_gp();
    let gph: i64 = x.gph();
    assert(0 <= hours <= 0x1_0000_0000_0000) by {
        match x.time {
            Some(t) => {
                let n = x.number as int;
                match t {
                    crate::types::ExecTime::Millis(m) => {
                        assert((n * m + 18_000) / 36_000 <= 0x1_0000_0000_0000) by (nonlinear_arith)
                            requires 0 <= n <= 0x7fff_ffff, 0 < m <= 0xffff_ffff;
                    },
                    crate::types::ExecTime::PerHour(p) => {
                        assert((200 * n + p) / (2 * p) <= 0x1_0000_0000_0000) by (nonlinear_arith)
                            requires 0 <= n <= 0x7fff_ffff, 0 < p <= 0x7fff_ffff;
                    },
                }
            },
            None => {},
        }
    }
    let w0: i128 = weights[0] as i128;
    let w1: i128 = weights[1] as i128;
    let w2: i128 = weights[2] as i128;
    let w3: i128 = weights[3] as i128;
    assert(-0x4000_0000_0000_0000_0000_0000 <= w0 * (x.profit as i128) <= 0x4000_0000_0000_0000_0000_0000) by (nonlinear_arith)
        requires -0x8000_0000 <= w0 <= 0x7fff_ffff, -0x8000_0000 <= x.profit <= 0x7fff_ffff;
    assert(-0x4000_0000_0000_0000_0000_0000 <= w1 * (total_gp as i128) <= 0x4000_0000_0000_0000_0000_0000) by (nonlinear_arith)
        requires -0x8000_0000 <= w1 <= 0x7fff_ffff, -0x8000_0000_0000_0000 <= total_gp <= 0x7fff_ffff_ffff_ffff;
    assert(-0x4000_0000_0000_0000_0000_0000 <= w2 * hours <= 0x4000_0000_0000_0000_0000_0000) by (nonlinear_arith)
        requires -0x8000_0000 <= w2 <= 0x7fff_ffff, 0 <= hours <= 0x1_0000_0000_0000;
    assert(-0x4000_0000_0000_0000_0000_0000 <= w3 * (gph as i128) <= 0x4000_0000_0000_0000_0000_0000) by (nonlinear_arith)
        requires -0x8000_0000 <= w3 <= 0x7fff_ffff, -0x8000_0000_0000_0000 <= gph <= 0x7fff_ffff_ffff_ffff;
    w0 * (x.profit as i128) + w1 * (total_gp as i128) + w2 * hours + w3 * (gph as i128)
}

/// The key of a row, as the sort compares it.
pub fn row_sort_key(row: &OverviewRow, order: &RowOrder) -> (r: (String, i128))
    requires
        row.wf(),
    ensures
        r.0@ == row_key(row@, *order).0,
        r.1 == row_key(row@, *order).1,
{
    match *order {
        RowOrder::ByName => (row.name.clone(), 0),
        RowOrder::ByTotalGp => (String::new(), row.total_gp() as i128),
        RowOrder::ByTime => {
            let key: i128 = match row.total_time() {
                Some(h) => h as i128,
                None => UNKNOWN_TIME_KEY as i128,
            };
            (String::new(), key)
        },
        RowOrder::ByGph => (String::new(), row.gph() as i128),
        RowOrder::ByScore(w) => (String::new(), lin_scalarization(row, &w)),
    }
}

/// `p` lists each position below `n` exactly once.
pub open spec fn is_permutation(p: Seq<int>, n: nat) -> bool {
    &&& p.len() == n
    &&& forall|i: int| 0 <= i < n ==> 0 <= #[trigger] p[i] < n
    &&& forall|i: int, j: int| 0 <= i < j < n ==> p[i] != p[j]
}

/// `r` holds the rows of `rows` at the positions `p` gives, and rows with
/// equal keys keep the order they had in `rows`.
pub open spec fn stable_rearrangement(r: Seq<OverviewRow>, rows: Seq<OverviewRow>, order: RowOrder, p: Seq<int>) -> bool {
    &&& r.len() == rows.len()
    &&& is_permutation(p, rows.len())
    &&& forall|i: int| 0 <= i < r.len() ==> #[trigger] r[i] == rows[p[i]]
    &&& forall|i: int, j: int|
        0 <= i < j < r.len() && row_key(r[i]@, order) == row_key(r[j]@, order) ==> p[i] < p[j]
}

/// Relies on `itertools::Itertools::sorted_by_key`, which collects the rows
/// and sorts them with `slice::sort_by_key`, a stable sort: the same rows,
/// ordered by the key that `row_sort_key` computes, rows with equal keys in
/// the order they came in. Tuples of `String` and `i128` compare
/// lexicographically, and `String` by its bytes, which is the order of the
/// characters.
#[verifier::external_body]
fn sorted_by_row_key(rows: Vec<OverviewRow>, order: RowOrder) -> (r: Vec<OverviewRow>)
    requires
        forall|i: int| 0 <= i < rows@.len() ==> (#[trigger] rows@[i]).wf(),
    ensures
        r@.to_multiset() == rows@.to_multiset(),
        exists|p: Seq<int>| stable_rearrangement(r@, rows@, order, p),
        forall|i: int, j: int| 0 <= i < j < r@.len() ==> key_le(row_key(r@[i]@, order), row_key(r@[j]@, order)),
{
    rows.into_iter().sorted_by_key(|row| row_sort_key(row, &order)).collect()
}

} // verus!

verus! {

/// The rows in reverse order.
pub fn reversed(rows: Vec<OverviewRow>) -> (r: Vec<OverviewRow>)
    ensures
        r@ == rows@.reverse(),
{
    let ghost all = rows@;
    let mut rest = rows;
    let mut out: Vec<OverviewRow> = Vec::new();
    while rest.len() > 0
        invariant
            rest@ == all.take(rest@.len() as int),
            out@.len() + rest@.len() == all.len(),
            forall|j: int| 0 <= j < out@.len() ==> #[trigger] out@[j] == all[all.len() - 1 - j],
        decreases rest@.len(),
    {
        let ghost n = rest@.len();
        let row = rest.pop().unwrap();
        assert(rest@ =~= all.take(n - 1));
        out.push(row);
    }
    assert(out@ =~= all.reverse());
    out
}

/// Rows sorted by `order`, ascending, or descending when `descending`.
pub fn sort_rows(rows: Vec<OverviewRow>, order: RowOrder, descending: bool) -> (r: Vec<OverviewRow>)
    requires
        forall|i: int| 0 <= i < rows@.len() ==> (#[trigger] rows@[i]).wf(),
    ensures
        r@.to_multiset() == rows@.to_multiset(),
        forall|i: int, j: int| 0 <= i < j < r@.len() ==> (if descending {
            key_le(row_key(r@[j]@, order), row_key(r@[i]@, order))
        } else {
            key_le(row_key(r@[i]@, order), row_key(r@[j]@, order))
        }),
        exists|p: Seq<int>| stable_rearrangement(r@, rows@, order, p),
{
    if descending {
        // Sorting the reversed rows and reversing the result orders them
        // descending while rows with equal keys keep their order.
        let ghost all = rows@;
        let backwards = reversed(rows);
        let ghost n = all.len() as int;
        assert forall|i: int| 0 <= i < backwards@.len() implies (#[trigger] backwards@[i]).wf() by {
            assert(backwards@[i] == all[n - 1 - i]);
        }
        let sorted = sorted_by_row_key(backwards, order);
        let ghost sorted_view = sorted@;
        let r = reversed(sorted);
        proof {
            all.lemma_reverse_to_multiset();
            sorted_view.lemma_reverse_to_multiset();
            assert forall|i: int, j: int| 0 <= i < j < r@.len() implies key_le(row_key(r@[j]@, order), row_key(r@[i]@, order)) by {
                assert(r@[i] == sorted_view[n - 1 - i]);
                assert(r@[j] == sorted_view[n - 1 - j]);
            }
            let q = choose|q: Seq<int>| stable_rearrangement(sorted_view, all.reverse(), order, q);
            let p = Seq::new(n as nat, |i: int| n - 1 - q[n - 1 - i]);
            assert forall|i: int| 0 <= i < n implies 0 <= #[trigger] p[i] < n by {
                assert(0 <= q[n - 1 - i] < n);
            }
            assert forall|i: int, j: int| 0 <= i < j < n implies p[i] != p[j] by {
                assert(q[n - 1 - j] != q[n - 1 - i]);
            }
            assert forall|i: int| 0 <= i < r@.len() implies #[trigger] r@[i] == all[p[i]] by {
                assert(r@[i] == sorted_view[n - 1 - i]);
                assert(sorted_view[n - 1 - i] == all.reverse()[q[n - 1 - i]]);
            }
            assert forall|i: int, j: int|
                0 <= i < j < r@.len() && row_key(r@[i]@, order) == row_key(r@[j]@, order) implies p[i] < p[j] by {
                assert(r@[i] == sorted_view[n - 1 - i]);
                assert(r@[j] == sorted_view[n - 1 - j]);
                assert(q[n - 1 - j] < q[n - 1 - i]);
            }
            assert(stable_rearrangement(r@, all, order, p));
        }
        r
    } else {
        sorted_by_row_key(rows, order)
    }
}

/// Rows ordered by their weighted score, lowest first, or highest first when
/// `reverse`; rows with equal scores keep their order.
pub fn optimal_sort(table: Vec<OverviewRow>, weights: &Weights, reverse: bool) -> (r: Vec<OverviewRow>)
    requires
        forall|i: int| 0 <= i < table@.len() ==> (#[trigger] table@[i]).wf(),
    ensures
        r@.to_multiset() == table@.to_multiset(),
        exists|p: Seq<int>| stable_rearrangement(r@, table@, RowOrder::ByScore(*weights), p),
        forall|i: int, j: int| 0 <= i < j < r@.len() ==> (if reverse {
            score(r@[i]@, weights@) >= score(r@[j]@, weights@)
        } else {
            score(r@[i]@, weights@) <= score(r@[j]@, weights@)
        }),
{
    let order = RowOrder::ByScore(*weights);
    let r = sort_rows(table, order, reverse);
    assert forall|i: int, j: int| 0 <= i < j < r@.len() implies (if reverse {
        score(r@[i]@, weights@) >= score(r@[j]@, weights@)
    } else {
        score(r@[i]@, weights@) <= score(r@[j]@, weights@)
    }) by {
        if reverse {
            lemma_numeric_key_le(row_key(r@[j]@, order), row_key(r@[i]@, order));
        } else {
            lemma_numeric_key_le(row_key(r@[i]@, order), row_key(r@[j]@, order));
        }
    }
    r
}

} // verus!
