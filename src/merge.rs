//! Merging sorted sequence-number columns into one order.
use vstd::prelude::*;

verus! {

/// A row of one of the merged columns.
#[derive(Clone, Copy, PartialEq, Eq, Structural, Debug)]
pub struct MergeItem {
    pub kind: usize,
    pub index: usize,
}

/// Every column is sorted, lowest first.
pub open spec fn columns_sorted(cols: Seq<Seq<u32>>) -> bool {
    forall|k: int, i: int, j: int|
        0 <= k < cols.len() && 0 <= i <= j < cols[k].len() ==> #[trigger] cols[k][i]
            <= #[trigger] cols[k][j]
}

/// `m` names a row of the columns.
pub open spec fn valid_item(cols: Seq<Seq<u32>>, m: MergeItem) -> bool {
    m.kind < cols.len() && m.index < cols[m.kind as int].len()
}

/// The sequence number of a row.
pub open spec fn item_seq(cols: Seq<Seq<u32>>, m: MergeItem) -> u32 {
    cols[m.kind as int][m.index as int]
}

/// The order of the merge: by sequence number, then by column, then by row.
pub open spec fn item_before(cols: Seq<Seq<u32>>, a: MergeItem, b: MergeItem) -> bool {
    item_seq(cols, a) < item_seq(cols, b) || (item_seq(cols, a) == item_seq(cols, b) && (a.kind
        < b.kind || (a.kind == b.kind && a.index < b.index)))
}

/// Total number of rows.
pub open spec fn total_rows(cols: Seq<Seq<u32>>) -> nat
    decreases cols.len(),
{
    if cols.len() == 0 {
        0
    } else {
        total_rows(cols.drop_last()) + cols.last().len()
    }
}

/// Sum of a sequence of counts.
pub open spec fn sum(s: Seq<usize>) -> nat
    decreases s.len(),
{
    if s.len() == 0 {
        0
    } else {
        sum(s.drop_last()) + s.last() as nat
    }
}

proof fn lemma_sum_update(s: Seq<usize>, i: int, v: usize)
    requires
        0 <= i < s.len(),
    ensures
        sum(s.update(i, v)) == sum(s) - s[i] + v,
    decreases s.len(),
{
    if i < s.len() - 1 {
        lemma_sum_update(s.drop_last(), i, v);
        assert(s.update(i, v).drop_last() =~= s.drop_last().update(i, v));
    } else {
        assert(s.update(i, v).drop_last() =~= s.drop_last());
    }
}

proof fn lemma_sum_zero(s: Seq<usize>)
    requires
        forall|k: int| 0 <= k < s.len() ==> s[k] == 0,
    ensures
        sum(s) == 0,
    decreases s.len(),
{
    if s.len() > 0 {
        lemma_sum_zero(s.drop_last());
    }
}

proof fn lemma_sum_bounded(s: Seq<usize>, cols: Seq<Seq<u32>>)
    requires
        s.len() == cols.len(),
        forall|k: int| 0 <= k < s.len() ==> s[k] <= #[trigger] cols[k].len(),
    ensures
        sum(s) <= total_rows(cols),
        sum(s) == total_rows(cols) <==> forall|k: int| 0 <= k < s.len() ==> s[k] == #[trigger] cols[k].len(),
    decreases s.len(),
{
    if s.len() > 0 {
        let (s0, c0) = (s.drop_last(), cols.drop_last());
        assert forall|k: int| 0 <= k < s0.len() implies s0[k] <= #[trigger] c0[k].len() by {
            assert(s0[k] == s[k] && c0[k] == cols[k]);
        }
        lemma_sum_bounded(s0, c0);
        if sum(s) == total_rows(cols) {
            assert forall|k: int| 0 <= k < s.len() implies s[k] == #[trigger] cols[k].len() by {
                if k < s.len() - 1 {
                    assert(s0[k] == s[k] && c0[k] == cols[k]);
                }
            }
        }
        if forall|k: int| 0 <= k < s.len() ==> s[k] == #[trigger] cols[k].len() {
            assert forall|k: int| 0 <= k < s0.len() implies s0[k] == #[trigger] c0[k].len() by {
                assert(s0[k] == s[k] && c0[k] == cols[k]);
            }
            assert(s[s.len() - 1] == cols[s.len() - 1].len());
        }
    }
}

/// `order` lists every row of the columns once, in merge order.
pub open spec fn is_merge_of(cols: Seq<Seq<u32>>, order: Seq<MergeItem>) -> bool {
    &&& order.len() == total_rows(cols)
    &&& forall|j: int| 0 <= j < order.len() ==> valid_item(cols, #[trigger] order[j])
    &&& forall|j: int, l: int|
        0 <= j < l < order.len() ==> item_before(cols, #[trigger] order[j], #[trigger] order[l])
    &&& forall|m: MergeItem|
        valid_item(cols, m) ==> exists|j: int| 0 <= j < order.len() && #[trigger] order[j] == m
}

/// The columns' contents.
pub open spec fn column_views(columns: Seq<&Vec<u32>>) -> Seq<Seq<u32>> {
    columns.map_values(|c: &Vec<u32>| c@)
}

/// Visits every row of every column once, by sequence number; among equal
/// numbers the lower column comes first.
pub fn merge_columns(columns: &Vec<&Vec<u32>>) -> (r: Vec<MergeItem>)
    requires
        columns_sorted(column_views(columns@)),
    ensures
        is_merge_of(column_views(columns@), r@),
{
    let ghost cols = column_views(columns@);
    let n = columns.len();
    let mut cur: Vec<usize> = Vec::new();
    let mut k: usize = 0;
    while k < n
        invariant
            k <= n,
            n == columns@.len(),
            cur@.len() == k,
            forall|j: int| 0 <= j < k ==> cur@[j] == 0,
        decreases n - k,
    {
        cur.push(0);
        k = k + 1;
    }
    proof {
        lemma_sum_zero(cur@);
    }
    let mut out: Vec<MergeItem> = Vec::new();
    loop
        invariant
            n == columns@.len(),
            cols == column_views(columns@),
            columns_sorted(cols),
            cur@.len() == n,
            forall|k: int| 0 <= k < n ==> cur@[k] <= #[trigger] cols[k].len(),
            out@.len() == sum(cur@),
            forall|j: int| 0 <= j < out@.len() ==> valid_item(cols, #[trigger] out@[j]),
            forall|j: int| 0 <= j < out@.len() ==> (#[trigger] out@[j]).index < cur@[out@[j].kind as int],
            forall|j: int, l: int|
                0 <= j < l < out@.len() ==> item_before(cols, #[trigger] out@[j], #[trigger] out@[l]),
            forall|j: int, k: int|
                0 <= j < out@.len() && 0 <= k < n && cur@[k] < cols[k].len() ==> item_before(
                    cols,
                    #[trigger] out@[j],
                    MergeItem { kind: k as usize, index: #[trigger] cur@[k] },
                ),
            forall|m: MergeItem|
                valid_item(cols, m) && m.index < cur@[m.kind as int] ==> exists|j: int|
                    0 <= j < out@.len() && #[trigger] out@[j] == m,
        decreases total_rows(cols) - out@.len(),
    {
        proof {
            lemma_sum_bounded(cur@, cols);
        }
        let mut best: usize = n;
        let mut k: usize = 0;
        while k < n
            invariant
                n == columns@.len(),
                cols == column_views(columns@),
                cur@.len() == n,
                k <= n,
                best == n || (best < k && cur@[best as int] < cols[best as int].len()),
                best == n ==> forall|j: int| 0 <= j < k ==> cur@[j] >= #[trigger] cols[j].len(),
                best < n ==> forall|j: int|
                    0 <= j < k && cur@[j] < #[trigger] cols[j].len() ==> !item_before(
                        cols,
                        MergeItem { kind: j as usize, index: cur@[j] },
                        MergeItem { kind: best, index: cur@[best as int] },
                    ),
            decreases n - k,
        {
            let col = columns[k];
            if cur[k] < col.len() {
                if best == n || col[cur[k]] < columns[best][cur[best]] {
                    best = k;
                }
            }
            k = k + 1;
        }
        if best == n {
            proof {
                lemma_sum_bounded(cur@, cols);
            }
            return out;
        }
        let rows = columns[best].len();
        let ghost old_out = out@;
        let ghost old_cur = cur@;
        let item = MergeItem { kind: best, index: cur[best] };
        out.push(item);
        assert(cur@[best as int] < rows);
        let next = cur[best] + 1;
        proof {
            lemma_sum_update(cur@, best as int, next);
        }
        cur.set(best, next);
        proof {
            assert forall|m: MergeItem| valid_item(cols, m) && m.index < cur@[m.kind as int] implies exists|j: int|
                0 <= j < out@.len() && #[trigger] out@[j] == m by {
                if m == item {
                    assert(out@[out@.len() - 1] == m);
                } else {
                    assert(m.index < old_cur[m.kind as int]);
                    assert(out@ == old_out.push(item));
                    let j = choose|j: int| 0 <= j < old_out.len() && #[trigger] old_out[j] == m;
                    assert(out@[j] == m);
                }
            }
        }
    }
}

} // verus!
