//! How many vertices a walk along the free points finds.

use crate::solvent::dareal::{holds_points, law_ordered_walkable, positive_names};
use crate::solvent::polygons::{
    ascending_labels, column, law_points_entered_twice, total_entries, views, FreeTable,
};
use crate::solvent::segments::{Freedom, MatrixBool};
use crate::solvent::walk::{
    find_edge, law_trace, law_trace_segment, law_walk, lemma_find_edge, lemma_used,
    lemma_walkable_used, next_segment, trace_from, trace_segment, unused, unused_in,
    unused_upto, used, walk, walkable,
};
use vstd::prelude::*;

verus! {

/// Entries at odd positions may have been marked as used, all others are as before.
pub open spec fn only_marked(before: Seq<Seq<isize>>, after: Seq<Seq<isize>>) -> bool {
    &&& after.len() == before.len()
    &&& forall|s: int| 0 <= s < before.len() ==> #[trigger] after[s].len() == before[s].len()
    &&& forall|s: int, m: int|
        0 <= s < before.len() && 0 <= m < before[s].len() ==> #[trigger] after[s][m]
            == before[s][m] || (m % 2 == 1 && after[s][m] == 0)
}

/// Every odd entry of a segment from position `j` on is used.
pub open spec fn odd_used(entries: Seq<isize>, j: int) -> bool {
    forall|m: int| j <= m < entries.len() && m % 2 == 1 ==> #[trigger] entries[m] == 0
}

proof fn lemma_marked_trans(a: Seq<Seq<isize>>, b: Seq<Seq<isize>>, c: Seq<Seq<isize>>)
    requires
        only_marked(a, b),
        only_marked(b, c),
    ensures
        only_marked(a, c),
{
    assert forall|s: int| 0 <= s < a.len() implies #[trigger] c[s].len() == a[s].len() by {
        assert(b[s].len() == a[s].len());
    }
    assert forall|s: int, m: int| 0 <= s < a.len() && 0 <= m < a[s].len() implies #[trigger] c[s][m]
        == a[s][m] || (m % 2 == 1 && c[s][m] == 0) by {
        assert(b[s].len() == a[s].len());
        assert(b[s][m] == a[s][m] || (m % 2 == 1 && b[s][m] == 0));
        assert(c[s][m] == b[s][m] || (m % 2 == 1 && c[s][m] == 0));
    }
}

proof fn lemma_used_marked(cols: Seq<Seq<isize>>, s: int, m: int)
    requires
        0 <= s < cols.len(),
        0 <= m < cols[s].len(),
        m % 2 == 1,
    ensures
        only_marked(cols, used(cols, s, m)),
{
}

proof fn lemma_walk_marked(cols: Seq<Seq<isize>>, ia: int, ib: int, start: (int, int))
    requires
        walkable(cols),
        0 <= ia < cols.len(),
        0 <= ib < cols.len(),
    ensures
        only_marked(cols, walk(cols, ia, ib, start).0),
    decreases unused(cols),
{
    lemma_find_edge(cols[ia], ib + 1, 1);
    let m = find_edge(cols[ia], ib + 1, 1);
    if m >= 0 {
        lemma_used(cols, ia, m);
        lemma_walkable_used(cols, ia, m);
        lemma_used_marked(cols, ia, m);
        let next = next_segment(cols, ia, m);
        assert(1 <= cols[ia][m - 1] <= cols.len());
        if next != ib {
            lemma_walk_marked(used(cols, ia, m), next, ia, start);
            lemma_marked_trans(cols, used(cols, ia, m), walk(cols, ia, ib, start).0);
        }
    }
}

proof fn lemma_odd_used_kept(before: Seq<Seq<isize>>, after: Seq<Seq<isize>>, s: int, j: int)
    requires
        only_marked(before, after),
        0 <= s < before.len(),
        0 <= j,
        odd_used(before[s], j),
    ensures
        odd_used(after[s], j),
{
    assert(after[s].len() == before[s].len());
    assert forall|m: int| j <= m < after[s].len() && m % 2 == 1 implies #[trigger] after[s][m]
        == 0 by {
        assert(before[s][m] == 0);
    }
}

proof fn lemma_trace_segment_complete(cols: Seq<Seq<isize>>, li: int, j: int, end: int)
    requires
        walkable(cols),
        0 <= li < cols.len(),
        1 <= j,
        j % 2 == 1,
        end == cols[li].len(),
    ensures
        only_marked(cols, trace_segment(cols, li, j, end).0),
        odd_used(trace_segment(cols, li, j, end).0[li], j),
    decreases end + 1 - j,
{
    if j < end {
        let r = trace_segment(cols, li, j, end).0;
        assert(0 <= cols[li][j] <= cols.len());
        if cols[li][j] == 0 {
            lemma_trace_segment_complete(cols, li, j + 2, end);
            assert(r[li][j] == 0);
        } else {
            let ia = cols[li][j - 1] - 1;
            assert((j - 1) % 2 == 0);
            assert(1 <= cols[li][j - 1] <= cols.len());
            let marked = used(cols, li, j);
            lemma_used(cols, li, j);
            lemma_walkable_used(cols, li, j);
            lemma_used_marked(cols, li, j);
            law_walk(marked, ia, li, (ia, li));
            lemma_walk_marked(marked, ia, li, (ia, li));
            let polygon = walk(marked, ia, li, (ia, li)).0;
            lemma_trace_segment_complete(polygon, li, j + 2, end);
            lemma_marked_trans(cols, marked, polygon);
            lemma_marked_trans(cols, polygon, r);
            assert(marked[li][j] == 0);
            assert(polygon[li][j] == 0);
            assert(r[li][j] == 0);
        }
        assert(r[li].len() == end);
        assert forall|m: int| j <= m < r[li].len() && m % 2 == 1 implies #[trigger] r[li][m] == 0 by {
            if m > j {
                assert(m >= j + 2);
            }
        }
    }
}

proof fn lemma_trace_complete(cols: Seq<Seq<isize>>, lab: Seq<usize>, p: int)
    requires
        walkable(cols),
        0 <= p,
        forall|q: int| 0 <= q < lab.len() ==> #[trigger] lab[q] < cols.len(),
    ensures
        only_marked(cols, trace_from(cols, lab, p).0),
        forall|q: int|
            p <= q < lab.len() ==> odd_used(
                trace_from(cols, lab, p).0[#[trigger] lab[q] as int],
                1,
            ),
    decreases lab.len() - p,
{
    if p < lab.len() {
        let li = lab[p] as int;
        let end = cols[li].len() as int;
        let own = trace_segment(cols, li, 1, end).0;
        law_trace_segment(cols, li, 1, end);
        lemma_trace_segment_complete(cols, li, 1, end);
        lemma_trace_complete(own, lab, p + 1);
        let r = trace_from(cols, lab, p).0;
        lemma_marked_trans(cols, own, r);
        assert forall|q: int| p <= q < lab.len() implies odd_used(
            r[#[trigger] lab[q] as int],
            1,
        ) by {
            if q == p {
                lemma_odd_used_kept(own, r, li, 1);
            }
        }
    }
}

/// The total length of the first `k` columns.
pub open spec fn total_len(cols: Seq<Seq<isize>>, k: int) -> int
    decreases k,
{
    if k <= 0 {
        0
    } else {
        total_len(cols, k - 1) + cols[k - 1].len()
    }
}

/// The total number of odd positions of the first `k` columns.
pub open spec fn total_odd(cols: Seq<Seq<isize>>, k: int) -> int
    decreases k,
{
    if k <= 0 {
        0
    } else {
        total_odd(cols, k - 1) + cols[k - 1].len() as int / 2
    }
}

proof fn lemma_unused_all(entries: Seq<isize>, k: int)
    requires
        0 <= k <= entries.len(),
        forall|m: int| 0 <= m < entries.len() ==> #[trigger] entries[m] != 0,
    ensures
        unused_in(entries, k) == k,
    decreases k,
{
    if k > 0 {
        lemma_unused_all(entries, k - 1);
        assert(entries[k - 1] != 0);
    }
}

proof fn lemma_unused_even(entries: Seq<isize>, k: int)
    requires
        0 <= k <= entries.len(),
        odd_used(entries, 1),
        forall|m: int| 0 <= m < entries.len() && m % 2 == 0 ==> #[trigger] entries[m] != 0,
    ensures
        unused_in(entries, k) == k - k / 2,
    decreases k,
{
    if k > 0 {
        lemma_unused_even(entries, k - 1);
        if (k - 1) % 2 == 1 {
            assert(entries[k - 1] == 0);
        } else {
            assert(entries[k - 1] != 0);
        }
    }
}

proof fn lemma_unused_totals(before: Seq<Seq<isize>>, after: Seq<Seq<isize>>, k: int)
    requires
        0 <= k <= before.len(),
        only_marked(before, after),
        forall|s: int| 0 <= s < before.len() ==> positive_names(
            #[trigger] before[s],
            before.len() as int,
        ),
        forall|s: int| 0 <= s < before.len() ==> odd_used(#[trigger] after[s], 1),
    ensures
        unused_upto(before, k) == total_len(before, k),
        unused_upto(after, k) == total_len(before, k) - total_odd(before, k),
    decreases k,
{
    if k > 0 {
        lemma_unused_totals(before, after, k - 1);
        let (b, a) = (before[k - 1], after[k - 1]);
        assert(positive_names(b, before.len() as int));
        assert(odd_used(a, 1) && a.len() == b.len());
        assert forall|m: int| 0 <= m < b.len() implies #[trigger] b[m] != 0 by {}
        lemma_unused_all(b, b.len() as int);
        assert forall|m: int| 0 <= m < a.len() && m % 2 == 0 implies #[trigger] a[m] != 0 by {
            assert(a[m] == b[m] || (m % 2 == 1 && a[m] == 0));
            assert(b[m] != 0);
        }
        lemma_unused_even(a, a.len() as int);
    }
}

/// A walk over ordered boundaries visits every odd entry exactly once: it finds as many
/// vertices as there are odd positions. Segments outside the cluster have no entries.
pub proof fn law_vertices(cols: Seq<Seq<isize>>, lab: Seq<usize>)
    requires
        forall|s: int| 0 <= s < cols.len() ==> positive_names(
            #[trigger] cols[s],
            cols.len() as int,
        ),
        forall|q: int| 0 <= q < lab.len() ==> #[trigger] lab[q] < cols.len(),
        forall|s: int|
            0 <= s < cols.len() && (forall|q: int| 0 <= q < lab.len() ==> #[trigger] lab[q] != s)
                ==> (#[trigger] cols[s]).len() == 0,
    ensures
        trace_from(cols, lab, 0).1.len() == total_odd(cols, cols.len() as int),
{
    law_ordered_walkable(cols);
    law_trace(cols, lab, 0);
    lemma_trace_complete(cols, lab, 0);
    let after = trace_from(cols, lab, 0).0;
    assert forall|s: int| 0 <= s < cols.len() implies odd_used(#[trigger] after[s], 1) by {
        if exists|q: int| 0 <= q < lab.len() && #[trigger] lab[q] == s {
            let q = choose|q: int| 0 <= q < lab.len() && #[trigger] lab[q] == s;
            assert(odd_used(after[lab[q] as int], 1));
        } else {
            assert(cols[s].len() == 0);
            assert(after[s].len() == cols[s].len());
        }
    }
    lemma_unused_totals(cols, after, cols.len() as int);
}

/// Columns between two neighbouring labels are empty.
proof fn lemma_gap(cols: Seq<Seq<isize>>, from: int, to: int)
    requires
        0 <= from <= to <= cols.len(),
        forall|s: int| from <= s < to ==> (#[trigger] cols[s]).len() == 0,
    ensures
        total_len(cols, to) == total_len(cols, from),
    decreases to - from,
{
    if from < to {
        lemma_gap(cols, from, to - 1);
    }
}

proof fn lemma_total_len(
    t: &FreeTable,
    conect: &MatrixBool,
    cluster: Seq<usize>,
    freedoms: Seq<Freedom>,
    p: int,
)
    requires
        holds_points(t, conect, cluster, freedoms),
        ascending_labels(cluster, conect.n as int),
        0 <= p <= cluster.len(),
    ensures
        total_len(
            views(t.columns@),
            if p < cluster.len() {
                cluster[p] as int
            } else {
                conect.n as int
            },
        ) == total_entries(conect, cluster, freedoms, p, cluster.len() as int),
    decreases p,
{
    let cols = views(t.columns@);
    let n = conect.n as int;
    let to = if p < cluster.len() {
        cluster[p] as int
    } else {
        n
    };
    let from = if p > 0 {
        cluster[p - 1] + 1
    } else {
        0
    };
    if p > 0 && p < cluster.len() {
        assert(cluster[p - 1] < cluster[p]);
    }
    assert forall|s: int| from <= s < to implies (#[trigger] cols[s]).len() == 0 by {
        assert forall|q: int| 0 <= q < cluster.len() implies #[trigger] cluster[q] != s by {
            if q < p - 1 {
                assert(cluster[q] < cluster[p - 1]);
            }
            if q > p {
                assert(cluster[p] < cluster[q]);
            }
        }
    }
    lemma_gap(cols, from, to);
    if p > 0 {
        lemma_total_len(t, conect, cluster, freedoms, p - 1);
        assert(cols[cluster[p - 1] as int] == column(
            conect,
            cluster,
            freedoms,
            p - 1,
            cluster.len() as int,
        ));
    }
}

proof fn lemma_even_halves(cols: Seq<Seq<isize>>, k: int)
    requires
        0 <= k <= cols.len(),
        forall|s: int| 0 <= s < cols.len() ==> (#[trigger] cols[s]).len() % 2 == 0,
    ensures
        2 * total_odd(cols, k) == total_len(cols, k),
    decreases k,
{
    if k > 0 {
        lemma_even_halves(cols, k - 1);
        assert(cols[k - 1].len() % 2 == 0);
    }
}

proof fn lemma_same_lengths(a: Seq<Seq<isize>>, b: Seq<Seq<isize>>, k: int)
    requires
        0 <= k <= a.len(),
        a.len() == b.len(),
        forall|s: int| 0 <= s < a.len() ==> (#[trigger] a[s]).len() == b[s].len(),
    ensures
        total_len(a, k) == total_len(b, k),
    decreases k,
{
    if k > 0 {
        lemma_same_lengths(a, b, k - 1);
        assert(a[k - 1].len() == b[k - 1].len());
    }
}

/// When every boundary holds an even number of free points, as closed boundaries do, the
/// polygons have exactly as many vertices as there are free points.
pub proof fn law_vertices_are_points(
    t: &FreeTable,
    conect: &MatrixBool,
    cluster: Seq<usize>,
    freedoms: Seq<Freedom>,
    ordered: Seq<Seq<isize>>,
)
    requires
        holds_points(t, conect, cluster, freedoms),
        ascending_labels(cluster, conect.n as int),
        ordered.len() == t.columns@.len(),
        forall|s: int|
            0 <= s < ordered.len() ==> (#[trigger] ordered[s]).len() == views(t.columns@)[s].len(),
        forall|s: int| 0 <= s < ordered.len() ==> (#[trigger] ordered[s]).len() % 2 == 0,
        forall|s: int| 0 <= s < ordered.len() ==> positive_names(
            #[trigger] ordered[s],
            ordered.len() as int,
        ),
    ensures
        trace_from(ordered, cluster, 0).1.len() == t.free,
{
    let cols = views(t.columns@);
    let n = conect.n as int;
    assert forall|s: int|
        0 <= s < ordered.len() && (forall|q: int| 0 <= q < cluster.len() ==> #[trigger] cluster[q]
            != s) implies (#[trigger] ordered[s]).len() == 0 by {
        assert(cols[s] == Seq::<isize>::empty());
    }
    law_vertices(ordered, cluster);
    lemma_even_halves(ordered, n);
    lemma_same_lengths(ordered, cols, n);
    lemma_total_len(t, conect, cluster, freedoms, cluster.len() as int);
    law_points_entered_twice(conect, cluster, freedoms, cluster.len() as int);
}

} // verus!
