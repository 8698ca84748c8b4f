//! Spherical polygons bounded by overlapping segments: the table of free
//! intersection points of each segment, their order along its boundary, and the
//! walk that closes them into polygons.

use crate::binary64::Real;
use crate::packed::{lemma_triangle_monotone, lemma_triangle_step, triangle};
use crate::solvent::segments::{lemma_cells, Freedom, MatrixBool};
use vstd::prelude::*;

verus! {

/// The free intersection points on the boundary of each segment.
///
/// An entry is the index of the other segment plus one; its sign tells which of
/// the two intersection points is meant, and zero marks an entry already used.
pub struct FreeTable {
    pub columns: Vec<Vec<isize>>,
    /// The number of free points.
    pub free: usize,
}

/// The entries of each segment.
pub open spec fn views(columns: Seq<Vec<isize>>) -> Seq<Seq<isize>> {
    columns.map_values(|c: Vec<isize>| c@)
}

/// Appends an entry to one segment.
fn push_entry(columns: &mut Vec<Vec<isize>>, s: usize, e: isize)
    requires
        s < old(columns)@.len(),
    ensures
        final(columns)@.len() == old(columns)@.len(),
        views(final(columns)@) == views(old(columns)@).update(
            s as int,
            views(old(columns)@)[s as int].push(e),
        ),
{
    columns[s].push(e);
    assert(views(columns@) =~= views(old(columns)@).update(
        s as int,
        views(old(columns)@)[s as int].push(e),
    ));
}

/// Replaces an entry of one segment.
pub(crate) fn set_entry(columns: &mut Vec<Vec<isize>>, s: usize, m: usize, e: isize)
    requires
        s < old(columns)@.len(),
        m < views(old(columns)@)[s as int].len(),
    ensures
        final(columns)@.len() == old(columns)@.len(),
        views(final(columns)@) == views(old(columns)@).update(
            s as int,
            views(old(columns)@)[s as int].update(m as int, e),
        ),
{
    columns[s].set(m, e);
    assert(views(columns@) =~= views(old(columns)@).update(
        s as int,
        views(old(columns)@)[s as int].update(m as int, e),
    ));
}

/// The freedom of clustered pair `q < p`, out of a list with one entry per pair.
#[verifier::opaque]
pub open spec fn freedom_at(freedoms: Seq<Freedom>, p: int, q: int) -> Freedom {
    freedoms[triangle(p - 1) + q]
}

/// The freedom of two clustered segments whose boundaries cross; without crossing
/// there is no free point.
pub open spec fn pair_freedom(
    conect: &MatrixBool,
    lab: Seq<usize>,
    freedoms: Seq<Freedom>,
    p: int,
    q: int,
) -> Freedom {
    let (hi, lo) = if p > q {
        (p, q)
    } else {
        (q, p)
    };
    if p != q && conect.cell(lab[lo] as int, lab[hi] as int) {
        freedom_at(freedoms, hi, lo)
    } else {
        Freedom::Points { ij: false, ji: false }
    }
}

/// The entries that the pair of clustered segments `p`, `q` gives to segment `p`.
pub open spec fn arcs(f: Freedom, partner: int, later: bool) -> Seq<isize> {
    match f {
        Freedom::Degenerate => seq![],
        Freedom::Points { ij, ji } => {
            let first: Seq<isize> = if ji {
                seq![(if later { partner + 1 } else { -(partner + 1) }) as isize]
            } else {
                seq![]
            };
            let second: Seq<isize> = if ij {
                seq![(if later { -(partner + 1) } else { partner + 1 }) as isize]
            } else {
                seq![]
            };
            first + second
        },
    }
}

/// The entries of clustered segment `p` from its pairs with segments below `upto`.
pub open spec fn column(
    conect: &MatrixBool,
    lab: Seq<usize>,
    freedoms: Seq<Freedom>,
    p: int,
    upto: int,
) -> Seq<isize>
    decreases upto,
{
    if upto <= 0 {
        seq![]
    } else {
        column(conect, lab, freedoms, p, upto - 1) + arcs(
            pair_freedom(conect, lab, freedoms, p, upto - 1),
            lab[upto - 1] as int,
            p > upto - 1,
        )
    }
}

/// The number of free points of one pair.
pub open spec fn point_count(f: Freedom) -> int {
    match f {
        Freedom::Degenerate => 0,
        Freedom::Points { ij, ji } => (if ij { 1int } else { 0 }) + (if ji { 1int } else { 0 }),
    }
}

/// The number of free points of all pairs below row `p` and of row `p` below `q`.
pub open spec fn free_upto(
    conect: &MatrixBool,
    lab: Seq<usize>,
    freedoms: Seq<Freedom>,
    p: int,
    q: int,
) -> int
    decreases p, q,
{
    if q > 0 {
        free_upto(conect, lab, freedoms, p, q - 1) + point_count(
            pair_freedom(conect, lab, freedoms, p, q - 1),
        )
    } else if p > 0 {
        free_upto(conect, lab, freedoms, p - 1, p - 1)
    } else {
        0
    }
}

/// Whether some crossing pair of clustered segments is degenerate.
pub open spec fn some_degenerate(
    conect: &MatrixBool,
    lab: Seq<usize>,
    freedoms: Seq<Freedom>,
) -> bool {
    exists|p: int, q: int|
        0 <= q < p < lab.len() && #[trigger] pair_freedom(conect, lab, freedoms, p, q)
            == Freedom::Degenerate
}

/// The clustered segments are listed once each, in ascending order.
pub open spec fn ascending_labels(lab: Seq<usize>, n: int) -> bool {
    &&& forall|p: int| 0 <= p < lab.len() ==> #[trigger] lab[p] < n
    &&& forall|p: int, q: int|
        0 <= p < q < lab.len() ==> #[trigger] lab[p] < #[trigger] lab[q]
}

/// How many partners of clustered segment `p` have been seen when the pairs are
/// visited up to row `i`, column `j`.
spec fn seen(p: int, i: int, j: int) -> int {
    if p < j {
        i + 1
    } else if p < i {
        i
    } else if p == i {
        j
    } else {
        0
    }
}

/// The columns hold what the visited pairs gave.
spec fn filled(
    cols: Seq<Seq<isize>>,
    conect: &MatrixBool,
    lab: Seq<usize>,
    freedoms: Seq<Freedom>,
    i: int,
    j: int,
) -> bool {
    &&& cols.len() == conect.n
    &&& forall|p: int|
        0 <= p < lab.len() ==> cols[#[trigger] lab[p] as int] == column(
            conect,
            lab,
            freedoms,
            p,
            seen(p, i, j),
        )
    &&& forall|s: int|
        0 <= s < conect.n && (forall|p: int| 0 <= p < lab.len() ==> #[trigger] lab[p] != s)
            ==> #[trigger] cols[s] == Seq::<isize>::empty()
}

proof fn lemma_free_upto_bound(
    conect: &MatrixBool,
    lab: Seq<usize>,
    freedoms: Seq<Freedom>,
    p: int,
    q: int,
)
    requires
        0 <= q,
        0 <= p,
    ensures
        0 <= free_upto(conect, lab, freedoms, p, q),
        p >= 1 ==> free_upto(conect, lab, freedoms, p, q) <= 2 * (triangle(p - 1) + q),
        p == 0 ==> free_upto(conect, lab, freedoms, p, q) <= 2 * q,
    decreases p, q,
{
    if q > 0 {
        lemma_free_upto_bound(conect, lab, freedoms, p, q - 1);
    } else if p > 0 {
        lemma_free_upto_bound(conect, lab, freedoms, p - 1, p - 1);
        if p > 1 {
            lemma_triangle_step(p - 2);
        }
    }
}

/// A segment has at most two free points with every other clustered segment.
pub proof fn law_column_capacity(
    conect: &MatrixBool,
    lab: Seq<usize>,
    freedoms: Seq<Freedom>,
    p: int,
    upto: int,
)
    requires
        0 <= upto,
        0 <= p,
    ensures
        column(conect, lab, freedoms, p, upto).len() <= 2 * upto,
        p < upto ==> column(conect, lab, freedoms, p, upto).len() <= 2 * (upto - 1),
    decreases upto,
{
    if upto > 0 {
        law_column_capacity(conect, lab, freedoms, p, upto - 1);
    }
}

/// Records the free points of segments `li` and `lj`, the former listed later.
fn record_pair(columns: &mut Vec<Vec<isize>>, li: usize, lj: usize, ij: bool, ji: bool)
    requires
        li != lj,
        li < old(columns)@.len(),
        lj < old(columns)@.len(),
        li < isize::MAX,
        lj < isize::MAX,
    ensures
        final(columns)@.len() == old(columns)@.len(),
        views(final(columns)@)[li as int] == views(old(columns)@)[li as int] + arcs(
            Freedom::Points { ij, ji },
            lj as int,
            true,
        ),
        views(final(columns)@)[lj as int] == views(old(columns)@)[lj as int] + arcs(
            Freedom::Points { ij, ji },
            li as int,
            false,
        ),
        forall|s: int|
            0 <= s < old(columns)@.len() && s != li && s != lj ==> #[trigger] views(
                final(columns)@,
            )[s] == views(old(columns)@)[s],
{
    if ji {
        push_entry(columns, li, (lj + 1) as isize);
        push_entry(columns, lj, -((li + 1) as isize));
    }
    if ij {
        push_entry(columns, li, -((lj + 1) as isize));
        push_entry(columns, lj, (li + 1) as isize);
    }
    proof {
        let f = Freedom::Points { ij, ji };
        assert(views(columns@)[li as int] =~= views(old(columns)@)[li as int] + arcs(
            f,
            lj as int,
            true,
        ));
        assert(views(columns@)[lj as int] =~= views(old(columns)@)[lj as int] + arcs(
            f,
            li as int,
            false,
        ));
    }
}

/// Records the free points of every crossing pair of clustered segments; `None` when
/// some pair is degenerate.
pub fn free_table(conect: &MatrixBool, lab: &Vec<usize>, freedoms: &Vec<Freedom>) -> (r: Option<
    FreeTable,
>)
    requires
        conect.wf(),
        conect.n < isize::MAX,
        ascending_labels(lab@, conect.n as int),
        freedoms@.len() == triangle(lab@.len() - 1),
    ensures
        r is None <==> some_degenerate(conect, lab@, freedoms@),
        r matches Some(t) ==> {
            &&& t.columns@.len() == conect.n
            &&& forall|p: int|
                0 <= p < lab@.len() ==> views(t.columns@)[#[trigger] lab@[p] as int] == column(
                    conect,
                    lab@,
                    freedoms@,
                    p,
                    lab@.len() as int,
                )
            &&& forall|s: int|
                0 <= s < conect.n && (forall|p: int| 0 <= p < lab@.len() ==> #[trigger] lab@[p] != s)
                    ==> #[trigger] views(t.columns@)[s] == Seq::<isize>::empty()
            &&& t.free == free_upto(conect, lab@, freedoms@, lab@.len() as int, 0)
        },
{
    let n: usize = conect.n;
    let m: usize = lab.len();
    let mut columns: Vec<Vec<isize>> = Vec::new();
    while columns.len() < n
        invariant
            columns@.len() <= n,
            forall|s: int| 0 <= s < columns@.len() ==> (#[trigger] columns@[s])@.len() == 0,
        decreases n - columns@.len(),
    {
        columns.push(Vec::new());
    }
    let mut free: usize = 0;
    let mut i: usize = 0;
    let mut start: usize = 0;
    proof {
        assert forall|s: int| 0 <= s < n implies #[trigger] views(columns@)[s]
            == Seq::<isize>::empty() by {
            assert(columns@[s]@.len() == 0);
            assert(views(columns@)[s] =~= Seq::<isize>::empty());
        }
        lemma_labels_fit(lab@, n as int);
        assert(conect.data.len() == n * n);
    }
    while i < m
        invariant
            i <= m,
            n == conect.n,
            m == lab@.len(),
            m <= n,
            n * n <= usize::MAX,
            n < isize::MAX,
            conect.wf(),
            ascending_labels(lab@, n as int),
            freedoms@.len() == triangle(m - 1),
            start == (if i == 0 { 0 } else { triangle(i - 1) }),
            filled(views(columns@), conect, lab@, freedoms@, i as int, 0),
            free == free_upto(conect, lab@, freedoms@, i as int, 0),
            forall|p: int, q: int|
                0 <= q < p < i ==> #[trigger] pair_freedom(conect, lab@, freedoms@, p, q)
                    != Freedom::Degenerate,
        decreases m - i,
    {
        let li: usize = lab[i];
        let mut j: usize = 0;
        proof {
            assert(freedoms.len() == triangle(m - 1));
            if i > 0 {
                lemma_triangle_step(i - 1);
                lemma_triangle_monotone(i as int, m - 1);
            }
        }
        while j < i
            invariant
                j <= i < m,
                n == conect.n,
                m == lab@.len(),
                m <= n,
                n * n <= usize::MAX,
                n < isize::MAX,
                conect.wf(),
                ascending_labels(lab@, n as int),
                freedoms@.len() == triangle(m - 1),
                triangle(m - 1) <= usize::MAX,
                li == lab@[i as int],
                i > 0 ==> start == triangle(i - 1) && start + i == triangle(i as int) && triangle(
                    i as int,
                ) <= triangle(m - 1),
                filled(views(columns@), conect, lab@, freedoms@, i as int, j as int),
                free == free_upto(conect, lab@, freedoms@, i as int, j as int),
                forall|p: int, q: int|
                    0 <= q < p < i ==> #[trigger] pair_freedom(conect, lab@, freedoms@, p, q)
                        != Freedom::Degenerate,
                forall|q: int|
                    0 <= q < j ==> #[trigger] pair_freedom(conect, lab@, freedoms@, i as int, q)
                        != Freedom::Degenerate,
            decreases i - j,
        {
            let lj: usize = lab[j];
            let ghost before = views(columns@);
            let ghost f = pair_freedom(conect, lab@, freedoms@, i as int, j as int);
            proof {
                lemma_cells(n as int, lj as int, li as int, lj as int, li as int);
                lemma_free_upto_bound(conect, lab@, freedoms@, i as int, j as int);
                lemma_triangle_step(m - 1);
                lemma_triangle_monotone(m - 1, m as int);
                lemma_square_bound(m as int, n as int);
                lemma_triangle_step(i - 1);
                lemma_triangle_monotone(i as int, m - 1);
            }
            if conect.at(lj, li) {
                proof {
                    reveal(freedom_at);
                }
                match freedoms[start + j] {
                    Freedom::Degenerate => {
                        assert(f == Freedom::Degenerate);
                        return None;
                    },
                    Freedom::Points { ij, ji } => {
                        record_pair(&mut columns, li, lj, ij, ji);
                        if ji {
                            free += 1;
                        }
                        if ij {
                            free += 1;
                        }
                    },
                }
            }
            proof {
                let after = views(columns@);
                assert(after[li as int] =~= before[li as int] + arcs(f, lj as int, true));
                assert(after[lj as int] =~= before[lj as int] + arcs(f, li as int, false));
                assert(pair_freedom(conect, lab@, freedoms@, j as int, i as int) == f);
                lemma_filled_step(before, after, conect, lab@, freedoms@, i as int, j as int);
            }
            j += 1;
        }
        proof {
            lemma_filled_row(views(columns@), conect, lab@, freedoms@, i as int);
        }
        assert(triangle(0) == 0);
        start += i;
        i += 1;
    }
    Some(FreeTable { columns, free })
}

/// There are no more labels than segments.
proof fn lemma_labels_fit(lab: Seq<usize>, n: int)
    requires
        ascending_labels(lab, n),
    ensures
        lab.len() <= n || lab.len() == 0,
{
    if lab.len() > 0 {
        lemma_label_lower_bound(lab, n, lab.len() - 1);
    }
}

proof fn lemma_label_lower_bound(lab: Seq<usize>, n: int, p: int)
    requires
        ascending_labels(lab, n),
        0 <= p < lab.len(),
    ensures
        p <= lab[p],
    decreases p,
{
    if p > 0 {
        lemma_label_lower_bound(lab, n, p - 1);
    }
}

proof fn lemma_square_bound(m: int, n: int)
    requires
        1 <= m <= n,
    ensures
        2 * triangle(m - 1) <= n * n,
{
    lemma_triangle_step(m - 1);
    assert((m - 1) * m <= n * n) by (nonlinear_arith)
        requires
            1 <= m <= n,
    ;
}

proof fn lemma_filled_step(
    before: Seq<Seq<isize>>,
    after: Seq<Seq<isize>>,
    conect: &MatrixBool,
    lab: Seq<usize>,
    freedoms: Seq<Freedom>,
    i: int,
    j: int,
)
    requires
        0 <= j < i < lab.len(),
        ascending_labels(lab, conect.n as int),
        filled(before, conect, lab, freedoms, i, j),
        after.len() == before.len(),
        after[lab[i] as int] == before[lab[i] as int] + arcs(
            pair_freedom(conect, lab, freedoms, i, j),
            lab[j] as int,
            true,
        ),
        after[lab[j] as int] == before[lab[j] as int] + arcs(
            pair_freedom(conect, lab, freedoms, j, i),
            lab[i] as int,
            false,
        ),
        forall|s: int|
            0 <= s < conect.n && s != lab[i] && s != lab[j] ==> after[s] == before[s],
    ensures
        filled(after, conect, lab, freedoms, i, j + 1),
{
    assert forall|p: int| 0 <= p < lab.len() implies after[#[trigger] lab[p] as int] == column(
        conect,
        lab,
        freedoms,
        p,
        seen(p, i, j + 1),
    ) by {
        assert(before[lab[p] as int] == column(conect, lab, freedoms, p, seen(p, i, j)));
        if p < i {
            assert(lab[p] < lab[i]);
        }
        if p > i {
            assert(lab[i] < lab[p]);
        }
        if p < j {
            assert(lab[p] < lab[j]);
        }
        if p > j {
            assert(lab[j] < lab[p]);
        }
    }
    assert forall|s: int|
        0 <= s < conect.n && (forall|p: int| 0 <= p < lab.len() ==> #[trigger] lab[p]
            != s) implies #[trigger] after[s] == Seq::<isize>::empty() by {
        assert(s != lab[i] && s != lab[j]);
        assert(before[s] == Seq::<isize>::empty());
    }
}

proof fn lemma_filled_row(
    cols: Seq<Seq<isize>>,
    conect: &MatrixBool,
    lab: Seq<usize>,
    freedoms: Seq<Freedom>,
    i: int,
)
    requires
        0 <= i < lab.len(),
        filled(cols, conect, lab, freedoms, i, i),
    ensures
        filled(cols, conect, lab, freedoms, i + 1, 0),
{
    assert forall|p: int| 0 <= p < lab.len() implies cols[#[trigger] lab[p] as int] == column(
        conect,
        lab,
        freedoms,
        p,
        seen(p, i + 1, 0),
    ) by {
        assert(cols[lab[p] as int] == column(conect, lab, freedoms, p, seen(p, i, i)));
        if p == i {
            let c = column(conect, lab, freedoms, i, i);
            assert(column(conect, lab, freedoms, i, i + 1) =~= c);
        }
    }
}

/// The number of free points of clustered segment `p` with segments below `upto`.
spec fn row_points(
    conect: &MatrixBool,
    lab: Seq<usize>,
    freedoms: Seq<Freedom>,
    p: int,
    upto: int,
) -> int
    decreases upto,
{
    if upto <= 0 {
        0
    } else {
        row_points(conect, lab, freedoms, p, upto - 1) + point_count(
            pair_freedom(conect, lab, freedoms, p, upto - 1),
        )
    }
}

/// The total length of the columns of clustered segments below `k`, each with its
/// partners below `upto`.
pub open spec fn total_entries(
    conect: &MatrixBool,
    lab: Seq<usize>,
    freedoms: Seq<Freedom>,
    k: int,
    upto: int,
) -> int
    decreases k,
{
    if k <= 0 {
        0
    } else {
        total_entries(conect, lab, freedoms, k - 1, upto) + column(
            conect,
            lab,
            freedoms,
            k - 1,
            upto,
        ).len()
    }
}

proof fn lemma_column_points(
    conect: &MatrixBool,
    lab: Seq<usize>,
    freedoms: Seq<Freedom>,
    p: int,
    upto: int,
)
    ensures
        column(conect, lab, freedoms, p, upto).len() == row_points(conect, lab, freedoms, p, upto),
    decreases upto,
{
    if upto > 0 {
        lemma_column_points(conect, lab, freedoms, p, upto - 1);
    }
}

proof fn lemma_free_row(
    conect: &MatrixBool,
    lab: Seq<usize>,
    freedoms: Seq<Freedom>,
    p: int,
    q: int,
)
    requires
        0 <= q,
    ensures
        free_upto(conect, lab, freedoms, p, q) == free_upto(conect, lab, freedoms, p, 0)
            + row_points(conect, lab, freedoms, p, q),
    decreases q,
{
    if q > 0 {
        lemma_free_row(conect, lab, freedoms, p, q - 1);
    }
}

proof fn lemma_total_grows(
    conect: &MatrixBool,
    lab: Seq<usize>,
    freedoms: Seq<Freedom>,
    k: int,
    upto: int,
)
    requires
        0 <= k <= upto,
    ensures
        total_entries(conect, lab, freedoms, k, upto + 1) == total_entries(
            conect,
            lab,
            freedoms,
            k,
            upto,
        ) + row_points(conect, lab, freedoms, upto, k),
    decreases k,
{
    if k > 0 {
        lemma_total_grows(conect, lab, freedoms, k - 1, upto);
        lemma_column_points(conect, lab, freedoms, k - 1, upto);
        lemma_column_points(conect, lab, freedoms, k - 1, upto + 1);
        assert(pair_freedom(conect, lab, freedoms, k - 1, upto) == pair_freedom(
            conect,
            lab,
            freedoms,
            upto,
            k - 1,
        ));
    }
}

/// Every free point is entered twice: once for each of the two segments that meet there.
pub proof fn law_points_entered_twice(
    conect: &MatrixBool,
    lab: Seq<usize>,
    freedoms: Seq<Freedom>,
    m: int,
)
    requires
        0 <= m,
    ensures
        total_entries(conect, lab, freedoms, m, m) == 2 * free_upto(conect, lab, freedoms, m, 0),
    decreases m,
{
    if m > 0 {
        law_points_entered_twice(conect, lab, freedoms, m - 1);
        lemma_total_grows(conect, lab, freedoms, m - 1, m - 1);
        lemma_free_row(conect, lab, freedoms, m - 1, m - 1);
        lemma_column_points(conect, lab, freedoms, m - 1, m);
        lemma_column_points(conect, lab, freedoms, m - 1, m - 1);
    }
}

/// Every entry names a segment of the sphere: its absolute value is a segment index
/// plus one.
pub proof fn law_column_entries(
    conect: &MatrixBool,
    lab: Seq<usize>,
    freedoms: Seq<Freedom>,
    p: int,
    upto: int,
)
    requires
        ascending_labels(lab, conect.n as int),
        conect.n < isize::MAX,
        0 <= upto <= lab.len(),
    ensures
        forall|k: int|
            0 <= k < column(conect, lab, freedoms, p, upto).len() ==> {
                let e = #[trigger] column(conect, lab, freedoms, p, upto)[k];
                1 <= e <= conect.n || -conect.n <= e <= -1
            },
    decreases upto,
{
    if upto > 0 {
        law_column_entries(conect, lab, freedoms, p, upto - 1);
        assert(lab[upto - 1] < conect.n);
        let earlier = column(conect, lab, freedoms, p, upto - 1);
        let whole = column(conect, lab, freedoms, p, upto);
        assert forall|k: int| 0 <= k < whole.len() implies {
            let e = #[trigger] whole[k];
            1 <= e <= conect.n || -conect.n <= e <= -1
        } by {
            if k < earlier.len() {
                assert(whole[k] == earlier[k]);
            }
        }
    }
}

/// The segment an entry refers to, and whether its sign is positive.
pub fn decode_entry(e: isize) -> (r: (usize, bool))
    requires
        e != 0,
        e != isize::MIN,
    ensures
        r.1 == (e > 0),
        r.0 + 1 == (if e > 0 { e as int } else { -e }),
        signed(r.0 as int, r.1) == e,
{
    if e > 0 {
        ((e - 1) as usize, true)
    } else {
        ((-e - 1) as usize, false)
    }
}

/// A crossing point of two boundaries, seen from one of them. Both points of a pair of
/// segments are kept with the higher of the two segments.
#[derive(Clone, Copy, Debug, PartialEq, Eq, Structural)]
pub struct CrossingPoint {
    pub high: usize,
    pub low: usize,
    /// The point that belongs to the higher segment rather than to the lower one.
    pub of_high: bool,
    /// The segment that looks at the point is the higher one.
    pub seen_from_high: bool,
}

/// The crossing point that an entry of segment `li` selects: a positive entry names the
/// point of the segment it refers to, a negative one the point of `li` itself.
pub open spec fn point_of(li: usize, other: usize, positive: bool) -> CrossingPoint {
    let first = if positive {
        other
    } else {
        li
    };
    let high = if li > other {
        li
    } else {
        other
    };
    CrossingPoint {
        high,
        low: if li > other {
            other
        } else {
            li
        },
        of_high: first == high,
        seen_from_high: li == high,
    }
}

/// The crossing point that an entry of segment `li` selects.
pub fn crossing_point(li: usize, other: usize, positive: bool) -> (p: CrossingPoint)
    ensures
        p == point_of(li, other, positive),
{
    let first: usize = if positive {
        other
    } else {
        li
    };
    if li > other {
        CrossingPoint { high: li, low: other, of_high: first == li, seen_from_high: true }
    } else {
        CrossingPoint {
            high: other,
            low: li,
            of_high: first == other,
            seen_from_high: li == other,
        }
    }
}

/// The two segments that share a point enter it with opposite signs and then agree on which
/// point it is; entries of the same sign select the two different points.
pub proof fn law_point_shared(li: usize, other: usize, positive: bool)
    requires
        li != other,
    ensures
        ({
            let own = point_of(li, other, positive);
            let theirs = point_of(other, li, !positive);
            let opposite = point_of(other, li, positive);
            &&& own.high == theirs.high && own.low == theirs.low && own.of_high == theirs.of_high
            &&& own.seen_from_high != theirs.seen_from_high
            &&& own.of_high != opposite.of_high
        }),
{
}

/// The entry that refers to a segment with the given sign.
pub open spec fn signed(partner: int, positive: bool) -> isize {
    (if positive {
        partner + 1
    } else {
        -(partner + 1)
    }) as isize
}

/// A pair gives an entry exactly when the point of that sign is free.
proof fn lemma_arcs_contain(f: Freedom, partner: int, later: bool, x: int, positive: bool)
    requires
        0 <= partner < isize::MAX,
        0 <= x < isize::MAX,
    ensures
        arcs(f, partner, later).contains(signed(x, positive)) <==> x == partner && (match f {
            Freedom::Degenerate => false,
            Freedom::Points { ij, ji } => if positive == later {
                ji
            } else {
                ij
            },
        }),
{
    let a = arcs(f, partner, later);
    let e = signed(x, positive);
    if a.contains(e) {
        let k = choose|k: int| 0 <= k < a.len() && a[k] == e;
        assert(a[k] == signed(partner, true) || a[k] == signed(partner, false));
    }
    match f {
        Freedom::Degenerate => {},
        Freedom::Points { ij, ji } => {
            if ji {
                assert(a[0] == signed(partner, later));
            }
            if ij {
                assert(a[if ji { 1int } else { 0 }] == signed(partner, !later));
            }
        },
    }
}

/// Only the pair with a segment gives entries that refer to it.
proof fn lemma_column_contains(
    conect: &MatrixBool,
    lab: Seq<usize>,
    freedoms: Seq<Freedom>,
    p: int,
    q: int,
    upto: int,
    positive: bool,
)
    requires
        ascending_labels(lab, conect.n as int),
        conect.n < isize::MAX,
        0 <= p < lab.len(),
        0 <= q < lab.len(),
        0 <= upto <= lab.len(),
    ensures
        column(conect, lab, freedoms, p, upto).contains(signed(lab[q] as int, positive)) <==> q
            < upto && arcs(
            pair_freedom(conect, lab, freedoms, p, q),
            lab[q] as int,
            p > q,
        ).contains(signed(lab[q] as int, positive)),
    decreases upto,
{
    if upto > 0 {
        let e = signed(lab[q] as int, positive);
        let earlier = column(conect, lab, freedoms, p, upto - 1);
        let f = pair_freedom(conect, lab, freedoms, p, upto - 1);
        let last = arcs(f, lab[upto - 1] as int, p > upto - 1);
        lemma_column_contains(conect, lab, freedoms, p, q, upto - 1, positive);
        lemma_arcs_contain(f, lab[upto - 1] as int, p > upto - 1, lab[q] as int, positive);
        let whole = earlier + last;
        assert(whole.contains(e) <==> earlier.contains(e) || last.contains(e)) by {
            if earlier.contains(e) {
                let k = choose|k: int| 0 <= k < earlier.len() && earlier[k] == e;
                assert(whole[k] == e);
            }
            if last.contains(e) {
                let k = choose|k: int| 0 <= k < last.len() && last[k] == e;
                assert(whole[earlier.len() + k] == e);
            }
            if whole.contains(e) {
                let k = choose|k: int| 0 <= k < whole.len() && whole[k] == e;
                if k < earlier.len() {
                    assert(earlier[k] == e);
                } else {
                    assert(last[k - earlier.len()] == e);
                }
            }
        }
        if q != upto - 1 {
            assert(lab[q] != lab[upto - 1]) by {
                if q < upto - 1 {
                    assert(lab[q] < lab[upto - 1]);
                } else {
                    assert(lab[upto - 1] < lab[q]);
                }
            }
        }
    }
}

/// A point that is entered for one segment is entered with the opposite sign for the other.
pub proof fn law_entries_opposite(
    conect: &MatrixBool,
    lab: Seq<usize>,
    freedoms: Seq<Freedom>,
    p: int,
    q: int,
    positive: bool,
)
    requires
        ascending_labels(lab, conect.n as int),
        conect.n < isize::MAX,
        0 <= p < lab.len(),
        0 <= q < lab.len(),
        p != q,
    ensures
        column(conect, lab, freedoms, p, lab.len() as int).contains(
            signed(lab[q] as int, positive),
        ) <==> column(conect, lab, freedoms, q, lab.len() as int).contains(
            signed(lab[p] as int, !positive),
        ),
{
    let m = lab.len() as int;
    lemma_column_contains(conect, lab, freedoms, p, q, m, positive);
    lemma_column_contains(conect, lab, freedoms, q, p, m, !positive);
    let f = pair_freedom(conect, lab, freedoms, p, q);
    assert(f == pair_freedom(conect, lab, freedoms, q, p));
    lemma_arcs_contain(f, lab[q] as int, p > q, lab[q] as int, positive);
    lemma_arcs_contain(f, lab[p] as int, q > p, lab[p] as int, !positive);
}

/// Drops the signs of a column's entries, once the points they select are read.
pub fn drop_signs(entries: &mut Vec<isize>)
    requires
        forall|k: int| 0 <= k < old(entries)@.len() ==> #[trigger] old(entries)@[k] != isize::MIN,
    ensures
        final(entries)@ == old(entries)@.map_values(
            |e: isize|
                if e < 0 {
                    (-e) as isize
                } else {
                    e
                },
        ),
{
    let ghost start = entries@;
    let mut k: usize = 0;
    while k < entries.len()
        invariant
            k <= entries@.len(),
            entries@.len() == start.len(),
            forall|x: int| 0 <= x < start.len() ==> #[trigger] start[x] != isize::MIN,
            forall|x: int|
                0 <= x < entries@.len() ==> #[trigger] entries@[x] == (if x < k && start[x] < 0 {
                    (-start[x]) as isize
                } else {
                    start[x]
                }),
        decreases entries@.len() - k,
    {
        let e: isize = entries[k];
        assert(start[k as int] != isize::MIN);
        if e < 0 {
            entries.set(k, -e);
        }
        k += 1;
    }
    assert(entries@ =~= start.map_values(
        |e: isize|
            if e < 0 {
                (-e) as isize
            } else {
                e
            },
    ));
}

/// A sequence with two positions exchanged.
pub open spec fn exchanged(order: Seq<int>, a: int, b: int) -> Seq<int> {
    order.update(a, order[b]).update(b, order[a])
}

/// Comparing position `a` with positions `b`, `b + 1`, ... and exchanging whenever
/// the later angle is smaller.
pub open spec fn exchange_row(angles: Seq<Real>, order: Seq<int>, a: int, b: int) -> Seq<int>
    decreases angles.len() - b,
{
    if b >= angles.len() {
        order
    } else if angles[order[b]].below(angles[order[a]]) {
        exchange_row(angles, exchanged(order, a, b), a, b + 1)
    } else {
        exchange_row(angles, order, a, b + 1)
    }
}

/// Exchange rows from position `a` on.
pub open spec fn exchange_rows(angles: Seq<Real>, order: Seq<int>, a: int) -> Seq<int>
    decreases angles.len() - a,
{
    if a >= angles.len() {
        order
    } else {
        exchange_rows(angles, exchange_row(angles, order, a, a + 1), a + 1)
    }
}

/// The order in which exchange sort leaves the angles: position `i` of the sorted
/// list holds the angle that was at position `sorted_order(angles)[i]`.
pub open spec fn sorted_order(angles: Seq<Real>) -> Seq<int> {
    exchange_rows(angles, Seq::new(angles.len(), |i: int| i), 0)
}

/// Each position below the length occurs exactly once.
pub open spec fn is_order(order: Seq<int>, n: int) -> bool {
    &&& order.len() == n
    &&& forall|i: int| 0 <= i < n ==> 0 <= #[trigger] order[i] < n
    &&& forall|i: int, j: int| 0 <= i < j < n ==> #[trigger] order[i] != #[trigger] order[j]
}

/// The angles at the first `a` positions are in order, and no later angle is smaller.
spec fn settled(angles: Seq<Real>, order: Seq<int>, a: int) -> bool {
    forall|i: int, j: int|
        0 <= i < j < angles.len() && i < a ==> angles[#[trigger] order[i]].at_most(
            angles[#[trigger] order[j]],
        )
}

proof fn lemma_exchange_row(angles: Seq<Real>, order: Seq<int>, a: int, b: int)
    requires
        0 <= a < b <= angles.len(),
        is_order(order, angles.len() as int),
    ensures
        is_order(exchange_row(angles, order, a, b), angles.len() as int),
        (forall|x: int| 0 <= x < angles.len() ==> !(#[trigger] angles[x]).nan()) && settled(
            angles,
            order,
            a,
        ) && (forall|x: int|
            a < x < b ==> angles[order[a]].at_most(angles[#[trigger] order[x]])) ==> settled(
            angles,
            exchange_row(angles, order, a, b),
            a + 1,
        ),
    decreases angles.len() - b,
{
    if b < angles.len() {
        if angles[order[b]].below(angles[order[a]]) {
            lemma_exchange_row(angles, exchanged(order, a, b), a, b + 1);
        } else {
            lemma_exchange_row(angles, order, a, b + 1);
        }
    }
}

proof fn lemma_exchange_rows(angles: Seq<Real>, order: Seq<int>, a: int)
    requires
        0 <= a <= angles.len(),
        is_order(order, angles.len() as int),
    ensures
        is_order(exchange_rows(angles, order, a), angles.len() as int),
        (forall|x: int| 0 <= x < angles.len() ==> !(#[trigger] angles[x]).nan()) && settled(
            angles,
            order,
            a,
        ) ==> settled(angles, exchange_rows(angles, order, a), angles.len() as int),
    decreases angles.len() - a,
{
    if a < angles.len() {
        lemma_exchange_row(angles, order, a, a + 1);
        lemma_exchange_rows(angles, exchange_row(angles, order, a, a + 1), a + 1);
    }
}

/// The sorted order is a permutation and puts numbers in ascending order.
pub proof fn law_sorted_order(angles: Seq<Real>)
    ensures
        is_order(sorted_order(angles), angles.len() as int),
        (forall|x: int| 0 <= x < angles.len() ==> !(#[trigger] angles[x]).nan()) ==> forall|
            i: int,
            j: int,
        |
            0 <= i < j < angles.len() ==> angles[#[trigger] sorted_order(angles)[i]].at_most(
                angles[#[trigger] sorted_order(angles)[j]],
            ),
{
    lemma_exchange_rows(angles, Seq::new(angles.len(), |i: int| i), 0);
}

/// Sorts the dihedral angles of one boundary in ascending order. The entries behind
/// the first one follow their angles; the result tells where each angle came from,
/// so that whatever else belongs to an angle can follow too.
pub fn sort_dihedrals(angles: &mut Vec<Real>, entries: &mut Vec<isize>) -> (order: Vec<usize>)
    requires
        old(entries)@.len() == old(angles)@.len() + 1,
    ensures
        crate::sequences::ints(order@) == sorted_order(old(angles)@),
        final(angles)@.len() == old(angles)@.len(),
        final(entries)@.len() == old(entries)@.len(),
        forall|i: int|
            0 <= i < old(angles)@.len() ==> #[trigger] final(angles)@[i] == old(
                angles,
            )@[order@[i] as int],
        final(entries)@[0] == old(entries)@[0],
        forall|i: int|
            0 <= i < old(angles)@.len() ==> #[trigger] final(entries)@[i + 1] == old(
                entries,
            )@[order@[i] + 1],
{
    let c: usize = angles.len();
    let ghost start = angles@;
    let ghost labels = entries@;
    let mut order: Vec<usize> = Vec::new();
    while order.len() < c
        invariant
            order@.len() <= c,
            forall|i: int| 0 <= i < order@.len() ==> #[trigger] order@[i] == i,
        decreases c - order@.len(),
    {
        let k: usize = order.len();
        order.push(k);
    }
    let ghost mut state = Seq::new(start.len(), |i: int| i);
    let mut a: usize = 0;
    while a < c
        invariant
            a <= c,
            c == start.len(),
            angles@.len() == c,
            order@.len() == c,
            entries@.len() == c + 1,
            labels.len() == c + 1,
            is_order(state, c as int),
            forall|i: int| 0 <= i < c ==> #[trigger] order@[i] == state[i],
            forall|i: int| 0 <= i < c ==> #[trigger] angles@[i] == start[state[i]],
            entries@[0] == labels[0],
            forall|i: int| 0 <= i < c ==> #[trigger] entries@[i + 1] == labels[state[i] + 1],
            sorted_order(start) == exchange_rows(start, state, a as int),
        decreases c - a,
    {
        let mut b: usize = a + 1;
        let ghost row = exchange_row(start, state, a as int, a + 1);
        while b < c
            invariant
                a < b <= c,
                c == start.len(),
                angles@.len() == c,
                order@.len() == c,
                entries@.len() == c + 1,
                labels.len() == c + 1,
                is_order(state, c as int),
                forall|i: int| 0 <= i < c ==> #[trigger] order@[i] == state[i],
                forall|i: int| 0 <= i < c ==> #[trigger] angles@[i] == start[state[i]],
                entries@[0] == labels[0],
                forall|i: int| 0 <= i < c ==> #[trigger] entries@[i + 1] == labels[state[i] + 1],
                row == exchange_row(start, state, a as int, b as int),
            decreases c - b,
        {
            let (wa, wb) = (angles[a], angles[b]);
            let (oa, ob): (usize, usize) = (order[a], order[b]);
            let (ea, eb): (isize, isize) = (entries[a + 1], entries[b + 1]);
            assert(ea == labels[state[a as int] + 1] && eb == labels[state[b as int] + 1]);
            if wa.gt(wb) {
                angles.set(a, wb);
                angles.set(b, wa);
                order.set(a, ob);
                order.set(b, oa);
                entries.set(a + 1, eb);
                entries.set(b + 1, ea);
                proof {
                    let before = state;
                    state = exchanged(before, a as int, b as int);
                    assert(is_order(state, c as int));
                }
            }
            b += 1;
        }
        a += 1;
    }
    assert(crate::sequences::ints(order@) =~= state);
    order
}

/// Moves the first entry of a boundary behind the last one.
pub fn rotate_entries(entries: &mut Vec<isize>)
    ensures
        final(entries)@ == (if old(entries)@.len() == 0 {
            old(entries)@
        } else {
            old(entries)@.subrange(1, old(entries)@.len() as int).push(old(entries)@[0])
        }),
{
    let n: usize = entries.len();
    if n > 0 {
        let first: isize = entries[0];
        let ghost start = entries@;
        let mut j: usize = 0;
        while j < n - 1
            invariant
                j <= n - 1,
                n == start.len(),
                entries@.len() == n,
                forall|x: int|
                    0 <= x < n ==> #[trigger] entries@[x] == (if x < j {
                        start[x + 1]
                    } else {
                        start[x]
                    }),
            decreases n - j,
        {
            let e: isize = entries[j + 1];
            entries.set(j, e);
            j += 1;
        }
        entries.set(n - 1, first);
        assert(entries@ =~= start.subrange(1, n as int).push(start[0]));
    }
}

/// The sign of an entry tells which of a pair's two points is meant. The later segment of a pair
/// enters the partner with a plus for the point `ji` and with a minus for `ij`, the earlier one
/// the other way round, and only points that are free are entered.
pub proof fn law_arcs(f: Freedom, partner: int, later: bool, positive: bool)
    requires
        0 <= partner < isize::MAX,
    ensures
        arcs(f, partner, later).contains(signed(partner, positive)) <==> (f matches Freedom::Points {
            ij,
            ji,
        } && if positive == later { ji } else { ij }),
        arcs(f, partner, later).len() == point_count(f),
{
    let a = arcs(f, partner, later);
    if a.len() > 0 {
        assert(a.contains(a[0]));
    }
    if a.len() > 1 {
        assert(a.contains(a[1]));
    }
}

/// Two segments cross in the points that were found free for them, the same from either side, and
/// in none where they are not connected.
pub proof fn law_pair_freedom(
    conect: &MatrixBool,
    lab: Seq<usize>,
    freedoms: Seq<Freedom>,
    p: int,
    q: int,
)
    ensures
        pair_freedom(conect, lab, freedoms, p, q) == pair_freedom(conect, lab, freedoms, q, p),
        q < p && conect.cell(lab[q] as int, lab[p] as int) ==> pair_freedom(
            conect,
            lab,
            freedoms,
            p,
            q,
        ) == freedom_at(freedoms, p, q),
        q < p && !conect.cell(lab[q] as int, lab[p] as int) ==> point_count(
            pair_freedom(conect, lab, freedoms, p, q),
        ) == 0 && pair_freedom(conect, lab, freedoms, p, q) != Freedom::Degenerate,
        point_count(pair_freedom(conect, lab, freedoms, p, p)) == 0,
{
}

/// A positive entry means the point of the segment it names, a negative one that of the segment
/// that holds it; points are kept with the higher of the two.
pub proof fn law_point_of(li: usize, other: usize, positive: bool)
    requires
        li != other,
    ensures
        ({
            let c = point_of(li, other, positive);
            &&& c.high > c.low
            &&& (c.high == li && c.low == other) || (c.high == other && c.low == li)
            &&& c.seen_from_high <==> li > other
            &&& c.of_high <==> (positive <==> other > li)
        }),
{
}

/// A pair counts one point for each that is free, so at most two, and none when it is degenerate.
pub proof fn law_point_count(ij: bool, ji: bool)
    ensures
        point_count(Freedom::Degenerate) == 0,
        point_count(Freedom::Points { ij: false, ji: false }) == 0,
        point_count(Freedom::Points { ij: true, ji: true }) == 2,
        point_count(Freedom::Points { ij, ji: !ij }) == 1,
{
}

/// Every sign comes back from the entry that it was put into.
pub proof fn law_signed(partner: int, positive: bool)
    requires
        0 <= partner < isize::MAX,
    ensures
        signed(partner, positive) > 0 <==> positive,
        signed(partner, true) == partner + 1,
        signed(partner, true) + signed(partner, false) == 0,
{
}

/// The points of pairs are listed in the order of packed storage: those of two segments stand where
/// the pair of the lower one and of the one below the higher stands.
pub proof fn law_freedom_at(freedoms: Seq<Freedom>, p: int, q: int)
    requires
        0 <= q < p,
    ensures
        freedom_at(freedoms, p, q) == freedoms[crate::packed::pair_index(p - 1, q)],
{
    let k = p - 1;
    assert(crate::packed::pair_index(k, q) == triangle(k) + q);
    reveal(freedom_at);
}

/// A cluster is degenerate exactly when a connected pair of its segments is.
pub proof fn law_some_degenerate(conect: &MatrixBool, lab: Seq<usize>, freedoms: Seq<Freedom>)
    ensures
        some_degenerate(conect, lab, freedoms) <==> exists|p: int, q: int|
            0 <= q < p < lab.len() && conect.cell(lab[q] as int, lab[p] as int)
                && #[trigger] freedom_at(freedoms, p, q) == Freedom::Degenerate,
{
    if some_degenerate(conect, lab, freedoms) {
        let (p, q) = choose|p: int, q: int|
            0 <= q < p < lab.len() && #[trigger] pair_freedom(conect, lab, freedoms, p, q)
                == Freedom::Degenerate;
        assert(freedom_at(freedoms, p, q) == Freedom::Degenerate);
    }
    if exists|p: int, q: int|
        0 <= q < p < lab.len() && conect.cell(lab[q] as int, lab[p] as int) && #[trigger] freedom_at(
            freedoms,
            p,
            q,
        ) == Freedom::Degenerate {
        let (p, q) = choose|p: int, q: int|
            0 <= q < p < lab.len() && conect.cell(lab[q] as int, lab[p] as int)
                && #[trigger] freedom_at(freedoms, p, q) == Freedom::Degenerate;
        assert(pair_freedom(conect, lab, freedoms, p, q) == Freedom::Degenerate);
    }
}

} // verus!
