//! The walk along free intersection points that closes spherical polygons, and
//! the terms by which the angles of one boundary enter the area and its gradient.

use crate::solvent::polygons::{set_entry, views};
use vstd::prelude::*;

verus! {

/// A polygon vertex: the angle between two segments, and the two segments whose
/// gradient columns take the derivative of that angle.
#[derive(Clone, Copy, Debug, PartialEq, Eq)]
pub struct Vertex {
    pub angle: (usize, usize),
    pub columns: (usize, usize),
}

/// Polygons found by a walk.
pub struct Polygons {
    /// The number of polygons.
    pub count: usize,
    /// The vertices of all polygons, in walking order.
    pub vertices: Vec<Vertex>,
}

/// Entries refer to existing segments, and those at even positions are unused.
pub open spec fn walkable(cols: Seq<Seq<isize>>) -> bool {
    forall|s: int, m: int|
        0 <= s < cols.len() && 0 <= m < cols[s].len() ==> {
            &&& 0 <= #[trigger] cols[s][m] <= cols.len()
            &&& m % 2 == 0 ==> cols[s][m] >= 1
        }
}

/// The first odd position from `m` on whose entry is `target`; `-1` if there is none.
pub open spec fn find_edge(entries: Seq<isize>, target: int, m: int) -> int
    decreases entries.len() + 1 - m,
{
    if m >= entries.len() {
        -1
    } else if entries[m] == target && entries[m - 1] > 0 {
        m
    } else {
        find_edge(entries, target, m + 2)
    }
}

/// The table with one entry marked as used.
pub open spec fn used(cols: Seq<Seq<isize>>, s: int, m: int) -> Seq<Seq<isize>> {
    cols.update(s, cols[s].update(m, 0isize))
}

/// The number of unused entries among the first `k` of one segment.
pub open spec fn unused_in(entries: Seq<isize>, k: int) -> nat
    decreases k,
{
    if k <= 0 {
        0
    } else {
        unused_in(entries, k - 1) + (if entries[k - 1] != 0 { 1nat } else { 0 })
    }
}

/// The number of unused entries of the first `k` segments.
pub open spec fn unused_upto(cols: Seq<Seq<isize>>, k: int) -> nat
    decreases k,
{
    if k <= 0 {
        0
    } else {
        unused_upto(cols, k - 1) + unused_in(cols[k - 1], cols[k - 1].len() as int)
    }
}

/// The number of unused entries of all segments.
pub open spec fn unused(cols: Seq<Seq<isize>>) -> nat {
    unused_upto(cols, cols.len() as int)
}

proof fn lemma_unused_in(entries: Seq<isize>, m: int, k: int)
    requires
        0 <= m < entries.len(),
        0 <= k <= entries.len(),
        entries[m] != 0,
    ensures
        unused_in(entries, k) == unused_in(entries.update(m, 0isize), k) + (if m < k {
            1nat
        } else {
            0
        }),
    decreases k,
{
    if k > 0 {
        lemma_unused_in(entries, m, k - 1);
    }
}

proof fn lemma_unused_upto(cols: Seq<Seq<isize>>, s: int, m: int, k: int)
    requires
        0 <= s < cols.len(),
        0 <= m < cols[s].len(),
        cols[s][m] != 0,
        0 <= k <= cols.len(),
    ensures
        unused_upto(cols, k) == unused_upto(used(cols, s, m), k) + (if s < k { 1nat } else { 0 }),
    decreases k,
{
    if k > 0 {
        lemma_unused_upto(cols, s, m, k - 1);
        lemma_unused_in(cols[s], m, cols[s].len() as int);
    }
}

/// Marking an unused entry leaves one unused entry less.
pub proof fn lemma_used(cols: Seq<Seq<isize>>, s: int, m: int)
    requires
        0 <= s < cols.len(),
        0 <= m < cols[s].len(),
        cols[s][m] != 0,
    ensures
        unused(cols) == unused(used(cols, s, m)) + 1,
{
    lemma_unused_upto(cols, s, m, cols.len() as int);
}

pub proof fn lemma_find_edge(entries: Seq<isize>, target: int, m: int)
    requires
        m >= 1,
        m % 2 == 1,
    ensures
        ({
            let r = find_edge(entries, target, m);
            r == -1 || (m <= r < entries.len() && r % 2 == 1 && entries[r] == target && entries[r
                - 1] > 0)
        }),
    decreases entries.len() + 1 - m,
{
    if m < entries.len() && !(entries[m] == target && entries[m - 1] > 0) {
        lemma_find_edge(entries, target, m + 2);
    }
}

/// Marking an entry at an odd position keeps the table walkable.
pub proof fn lemma_walkable_used(cols: Seq<Seq<isize>>, s: int, m: int)
    requires
        walkable(cols),
        0 <= s < cols.len(),
        0 <= m < cols[s].len(),
        m % 2 == 1,
    ensures
        walkable(used(cols, s, m)),
{
    let after = used(cols, s, m);
    assert forall|t: int, l: int| 0 <= t < after.len() && 0 <= l < after[t].len() implies {
        &&& 0 <= #[trigger] after[t][l] <= after.len()
        &&& l % 2 == 0 ==> after[t][l] >= 1
    } by {
        assert(0 <= cols[t][l] <= cols.len());
        assert(l % 2 == 0 ==> cols[t][l] >= 1);
    }
}

/// The segment reached by following entry `m` of segment `ia`.
pub open spec fn next_segment(cols: Seq<Seq<isize>>, ia: int, m: int) -> int {
    cols[ia][m - 1] - 1
}

/// The vertex at which two segments meet.
pub open spec fn meeting(ia: int, ib: int) -> Vertex {
    Vertex { angle: (ia as usize, ib as usize), columns: (ia as usize, ib as usize) }
}

/// The walk from the edge `(ia, ib)`: each step looks on `ia` for the edge back to `ib`,
/// marks it, and goes on to the segment before it; the polygon closes when that segment
/// is `ib` itself, with the last angle taken once more for the starting edge.
pub open spec fn walk(
    cols: Seq<Seq<isize>>,
    ia: int,
    ib: int,
    start: (int, int),
) -> (Seq<Seq<isize>>, Seq<Vertex>)
    decreases unused(cols),
    when walkable(cols) && 0 <= ia < cols.len() && 0 <= ib
    via walk_terminates
{
    let m = find_edge(cols[ia], ib + 1, 1);
    if m < 0 {
        (cols, seq![])
    } else {
        let next = next_segment(cols, ia, m);
        let marked = used(cols, ia, m);
        if next == ib {
            (
                marked,
                seq![Vertex {
                    angle: (ia as usize, ib as usize),
                    columns: (start.0 as usize, start.1 as usize),
                }],
            )
        } else {
            let rest = walk(marked, next, ia, start);
            (rest.0, seq![meeting(next, ia)] + rest.1)
        }
    }
}

#[via_fn]
proof fn walk_terminates(cols: Seq<Seq<isize>>, ia: int, ib: int, start: (int, int)) {
    lemma_find_edge(cols[ia], ib + 1, 1);
    let m = find_edge(cols[ia], ib + 1, 1);
    if m >= 0 {
        lemma_used(cols, ia, m);
    }
}

/// The polygons started by the unused odd entries of segment `li` from position `j` on.
pub open spec fn trace_segment(cols: Seq<Seq<isize>>, li: int, j: int, end: int) -> (
    Seq<Seq<isize>>,
    Seq<Vertex>,
    nat,
)
    decreases end + 1 - j,
{
    if j >= end {
        (cols, seq![], 0)
    } else if cols[li][j] == 0 {
        trace_segment(cols, li, j + 2, end)
    } else {
        let ia = cols[li][j - 1] - 1;
        let polygon = walk(used(cols, li, j), ia, li, (ia, li));
        let rest = trace_segment(polygon.0, li, j + 2, end);
        (rest.0, seq![meeting(ia, li)] + polygon.1 + rest.1, rest.2 + 1)
    }
}

/// The polygons started by the clustered segments from position `p` on.
pub open spec fn trace_from(cols: Seq<Seq<isize>>, lab: Seq<usize>, p: int) -> (
    Seq<Seq<isize>>,
    Seq<Vertex>,
    nat,
)
    decreases lab.len() - p,
{
    if p >= lab.len() {
        (cols, seq![], 0)
    } else {
        let own = trace_segment(cols, lab[p] as int, 1, cols[lab[p] as int].len() as int);
        let rest = trace_from(own.0, lab, p + 1);
        (rest.0, own.1 + rest.1, own.2 + rest.2)
    }
}

/// A table reached by marking odd entries of another.
pub open spec fn reached(before: Seq<Seq<isize>>, after: Seq<Seq<isize>>) -> bool {
    &&& after.len() == before.len()
    &&& forall|s: int| 0 <= s < before.len() ==> #[trigger] after[s].len() == before[s].len()
    &&& walkable(after)
}

/// A walk keeps the table walkable and uses up exactly one entry per vertex.
pub proof fn law_walk(cols: Seq<Seq<isize>>, ia: int, ib: int, start: (int, int))
    requires
        walkable(cols),
        0 <= ia < cols.len(),
        0 <= ib < cols.len(),
    ensures
        reached(cols, walk(cols, ia, ib, start).0),
        unused(cols) == unused(walk(cols, ia, ib, start).0) + walk(cols, ia, ib, start).1.len(),
    decreases unused(cols),
{
    lemma_find_edge(cols[ia], ib + 1, 1);
    let m = find_edge(cols[ia], ib + 1, 1);
    if m >= 0 {
        lemma_used(cols, ia, m);
        lemma_walkable_used(cols, ia, m);
        let next = next_segment(cols, ia, m);
        assert(1 <= cols[ia][m - 1] <= cols.len());
        if next != ib {
            law_walk(used(cols, ia, m), next, ia, start);
        }
    }
}

/// Tracing one segment keeps the table walkable and uses up one entry per vertex;
/// every polygon has at least one vertex.
pub proof fn law_trace_segment(cols: Seq<Seq<isize>>, li: int, j: int, end: int)
    requires
        walkable(cols),
        0 <= li < cols.len(),
        1 <= j,
        j % 2 == 1,
        end == cols[li].len(),
    ensures
        ({
            let r = trace_segment(cols, li, j, end);
            &&& reached(cols, r.0)
            &&& unused(cols) == unused(r.0) + r.1.len()
            &&& r.2 <= r.1.len()
        }),
    decreases end + 1 - j,
{
    if j < end {
        assert(0 <= cols[li][j] <= cols.len());
        if cols[li][j] == 0 {
            law_trace_segment(cols, li, j + 2, end);
        } else {
            let ia = cols[li][j - 1] - 1;
            assert((j - 1) % 2 == 0);
            assert(1 <= cols[li][j - 1] <= cols.len());
            lemma_used(cols, li, j);
            lemma_walkable_used(cols, li, j);
            law_walk(used(cols, li, j), ia, li, (ia, li));
            let polygon = walk(used(cols, li, j), ia, li, (ia, li));
            law_trace_segment(polygon.0, li, j + 2, end);
        }
    }
}

/// Tracing all segments uses up one entry per vertex, and there are at most as many
/// polygons as vertices.
pub proof fn law_trace(cols: Seq<Seq<isize>>, lab: Seq<usize>, p: int)
    requires
        walkable(cols),
        0 <= p,
        forall|q: int| 0 <= q < lab.len() ==> #[trigger] lab[q] < cols.len(),
    ensures
        ({
            let r = trace_from(cols, lab, p);
            &&& reached(cols, r.0)
            &&& unused(cols) == unused(r.0) + r.1.len()
            &&& r.2 <= r.1.len()
        }),
    decreases lab.len() - p,
{
    if p < lab.len() {
        let li = lab[p] as int;
        law_trace_segment(cols, li, 1, cols[li].len() as int);
        let own = trace_segment(cols, li, 1, cols[li].len() as int);
        law_trace(own.0, lab, p + 1);
    }
}

/// Walks one polygon from the edge `(ia, ib)`, appending its vertices.
fn walk_polygon(
    columns: &mut Vec<Vec<isize>>,
    first: usize,
    li: usize,
    vertices: &mut Vec<Vertex>,
)
    requires
        walkable(views(old(columns)@)),
        first < old(columns)@.len(),
        li < old(columns)@.len(),
    ensures
        final(columns)@.len() == old(columns)@.len(),
        views(final(columns)@) == walk(
            views(old(columns)@),
            first as int,
            li as int,
            (first as int, li as int),
        ).0,
        final(vertices)@ == old(vertices)@ + walk(
            views(old(columns)@),
            first as int,
            li as int,
            (first as int, li as int),
        ).1,
{
    let mut ia: usize = first;
    let mut ib: usize = li;
    let ghost start = (first as int, li as int);
    let ghost whole = walk(views(columns@), first as int, li as int, start);
    let ghost found = vertices@;
    let mut going: bool = true;
    assert(vertices@ =~= found + seq![]);
    assert(found + whole.1 =~= vertices@ + whole.1);
    while going
        invariant
            columns@.len() == old(columns)@.len(),
            start == (first as int, li as int),
            first < columns@.len(),
            li < columns@.len(),
            going ==> {
                &&& walkable(views(columns@))
                &&& ia < columns@.len()
                &&& ib < columns@.len()
                &&& whole.0 == walk(views(columns@), ia as int, ib as int, start).0
                &&& found + whole.1 == vertices@ + walk(
                    views(columns@),
                    ia as int,
                    ib as int,
                    start,
                ).1
            },
            !going ==> views(columns@) == whole.0 && vertices@ == found + whole.1,
        decreases going as int, unused(views(columns@)),
    {
        let ghost cols = views(columns@);
        let ghost edge = find_edge(cols[ia as int], ib + 1, 1);
        proof {
            lemma_find_edge(cols[ia as int], ib + 1, 1);
            law_walk(cols, ia as int, ib as int, start);
        }
        let count: usize = columns[ia].len();
        let mut m: usize = 1;
        let mut seen: bool = false;
        while !seen && m < count
            invariant
                cols == views(columns@),
                walkable(cols),
                ia < columns@.len(),
                ib < columns@.len(),
                count == cols[ia as int].len(),
                m >= 1,
                m % 2 == 1,
                seen ==> m < count && m == edge,
                !seen ==> edge == find_edge(cols[ia as int], ib + 1, m as int),
            decreases count + 2 - m, !seen as int,
        {
            assert(columns@[ia as int]@ == cols[ia as int]);
            assert(0 <= cols[ia as int][m as int] <= cols.len());
            let e: isize = columns[ia][m];
            let previous: isize = columns[ia][m - 1];
            if e > 0 && (e - 1) as usize == ib && previous > 0 {
                seen = true;
            } else if count - m > 2 {
                m += 2;
            } else {
                m = if count % 2 == 1 { count } else { count + 1 };
            }
        }
        if seen {
            assert(columns@[ia as int]@ == cols[ia as int]);
            assert(1 <= cols[ia as int][m - 1] <= cols.len());
            let next: usize = (columns[ia][m - 1] - 1) as usize;
            proof {
                lemma_used(cols, ia as int, m as int);
                lemma_walkable_used(cols, ia as int, m as int);
            }
            set_entry(columns, ia, m, 0);
            if next == ib {
                vertices.push(Vertex { angle: (ia, ib), columns: (first, li) });
                assert(vertices@ =~= found + whole.1);
                going = false;
            } else {
                let ghost before = vertices@;
                vertices.push(Vertex { angle: (next, ia), columns: (next, ia) });
                proof {
                    let rest = walk(views(columns@), next as int, ia as int, start);
                    assert(before + (seq![meeting(next as int, ia as int)] + rest.1) =~= vertices@
                        + rest.1);
                }
                ib = ia;
                ia = next;
            }
        } else {
            assert(vertices@ =~= found + whole.1);
            going = false;
        }
    }
}

/// Closes the free points of all clustered segments into polygons, marking every
/// entry passed.
pub fn trace_polygons(columns: &mut Vec<Vec<isize>>, lab: &Vec<usize>) -> (r: Polygons)
    requires
        walkable(views(old(columns)@)),
        forall|q: int| 0 <= q < lab@.len() ==> #[trigger] lab@[q] < old(columns)@.len(),
    ensures
        views(final(columns)@) == trace_from(views(old(columns)@), lab@, 0).0,
        r.vertices@ == trace_from(views(old(columns)@), lab@, 0).1,
        r.count == trace_from(views(old(columns)@), lab@, 0).2,
{
    let ghost whole = trace_from(views(columns@), lab@, 0);
    let ghost n = columns@.len();
    let mut vertices: Vec<Vertex> = Vec::new();
    let mut count: usize = 0;
    let mut p: usize = 0;
    assert(whole.1 =~= vertices@ + whole.1);
    while p < lab.len()
        invariant
            p <= lab@.len(),
            columns@.len() == n,
            walkable(views(columns@)),
            forall|q: int| 0 <= q < lab@.len() ==> #[trigger] lab@[q] < n,
            whole.0 == trace_from(views(columns@), lab@, p as int).0,
            whole.1 == vertices@ + trace_from(views(columns@), lab@, p as int).1,
            whole.2 == count + trace_from(views(columns@), lab@, p as int).2,
            count <= vertices@.len(),
        decreases lab@.len() - p,
    {
        let li: usize = lab[p];
        let ghost cols = views(columns@);
        let end: usize = columns[li].len();
        let ghost own = trace_segment(cols, li as int, 1, end as int);
        let ghost rest = trace_from(own.0, lab@, p + 1);
        let ghost earlier = vertices@;
        let ghost counted = count;
        let mut j: usize = 1;
        proof {
            law_trace_segment(cols, li as int, 1, end as int);
            assert(columns@[li as int]@ == cols[li as int]);
            assert(earlier + own.1 =~= vertices@ + own.1);
        }
        while j < end
            invariant
                columns@.len() == n,
                li < n,
                j >= 1,
                j % 2 == 1,
                walkable(views(columns@)),
                views(columns@)[li as int].len() == end,
                own.0 == trace_segment(views(columns@), li as int, j as int, end as int).0,
                earlier + own.1 == vertices@ + trace_segment(
                    views(columns@),
                    li as int,
                    j as int,
                    end as int,
                ).1,
                counted + own.2 == count + trace_segment(
                    views(columns@),
                    li as int,
                    j as int,
                    end as int,
                ).2,
                count <= vertices@.len(),
            decreases end + 2 - j,
        {
            let ghost now = views(columns@);
            proof {
                assert(columns@[li as int]@ == now[li as int]);
                assert(0 <= now[li as int][j as int] <= now.len());
                assert((j - 1) % 2 == 0);
                assert(1 <= now[li as int][j - 1] <= now.len());
            }
            if columns[li][j] != 0 {
                let ia: usize = (columns[li][j - 1] - 1) as usize;
                proof {
                    lemma_used(now, li as int, j as int);
                    lemma_walkable_used(now, li as int, j as int);
                    law_walk(
                        used(now, li as int, j as int),
                        ia as int,
                        li as int,
                        (ia as int, li as int),
                    );
                }
                set_entry(columns, li, j, 0);
                let ghost before = vertices@;
                vertices.push(Vertex { angle: (ia, li), columns: (ia, li) });
                walk_polygon(columns, ia, li, &mut vertices);
                assert(count < vertices.len());
                count += 1;
                proof {
                    let polygon = walk(
                        used(now, li as int, j as int),
                        ia as int,
                        li as int,
                        (ia as int, li as int),
                    );
                    let later = trace_segment(polygon.0, li as int, j + 2, end as int);
                    assert(before + (seq![meeting(ia as int, li as int)] + polygon.1 + later.1)
                        =~= vertices@ + later.1);
                }
            }
            if end - j > 2 {
                j += 2;
            } else {
                proof {
                    let stop: int = if end % 2 == 1 { end as int } else { end + 1 };
                    assert(trace_segment(views(columns@), li as int, j + 2, end as int)
                        == trace_segment(views(columns@), li as int, stop, end as int));
                }
                j = if end % 2 == 1 { end } else { end + 1 };
            }
        }
        proof {
            assert(vertices@ =~= earlier + own.1);
            assert(earlier + (own.1 + rest.1) =~= vertices@ + rest.1);
        }
        p += 1;
    }
    assert(whole.1 =~= vertices@);
    Polygons { count, vertices }
}

/// The dihedral derivative that a gradient term takes.
#[derive(Clone, Copy, Debug, PartialEq, Eq, Structural)]
pub enum Source {
    /// With respect to the segment whose boundary is walked.
    Own,
    /// With respect to the segment of the first free point.
    First,
    /// With respect to the segment of the angle's own free point.
    Other,
    /// With respect to the central sphere.
    Centre,
}

/// The combination of dihedral derivatives that a gradient term takes.
#[derive(Clone, Copy, Debug, PartialEq, Eq, Structural)]
pub enum Weight {
    /// The derivative of this angle.
    Plus(usize),
    /// Minus the derivative of this angle.
    Minus(usize),
    /// The derivative of this angle minus that of the angle before it.
    Difference(usize),
}

/// One contribution to the gradient of the odd dihedral sum.
#[derive(Clone, Copy, Debug, PartialEq, Eq, Structural)]
pub struct GradientTerm {
    /// Zero for the central sphere, otherwise the segment plus one.
    pub column: usize,
    pub source: Source,
    pub weight: Weight,
}

/// Whether an entry names a segment.
pub open spec fn names_segment(e: isize, ncross: int) -> bool {
    0 < e <= ncross + 1
}

/// The term of one entry, if it names a segment.
pub open spec fn entry_term(e: isize, ncross: int, weight: Weight) -> Seq<GradientTerm> {
    if names_segment(e, ncross) {
        seq![GradientTerm { column: e as usize, source: Source::Other, weight }]
    } else {
        seq![]
    }
}

/// The terms of the first angle.
pub open spec fn first_terms(li: int, lj: int, entries: Seq<isize>, ncross: int) -> Seq<
    GradientTerm,
> {
    if entries.len() > 1 && names_segment(entries[1], ncross) {
        seq![
            GradientTerm { column: (li + 1) as usize, source: Source::Own, weight: Weight::Plus(0) },
            GradientTerm {
                column: (lj + 1) as usize,
                source: Source::First,
                weight: Weight::Plus(0),
            },
            GradientTerm {
                column: entries[1] as usize,
                source: Source::Other,
                weight: Weight::Plus(0),
            },
            GradientTerm { column: 0, source: Source::Centre, weight: Weight::Plus(0) },
        ]
    } else {
        seq![]
    }
}

/// The terms of angles `j - 1` and `j`.
pub open spec fn step_terms(li: int, lj: int, entries: Seq<isize>, ncross: int, j: int) -> Seq<
    GradientTerm,
> {
    let d = Weight::Difference(j as usize);
    seq![
        GradientTerm { column: (li + 1) as usize, source: Source::Own, weight: d },
        GradientTerm { column: (lj + 1) as usize, source: Source::First, weight: d },
    ] + entry_term(entries[j], ncross, Weight::Minus((j - 1) as usize)) + entry_term(
        entries[j + 1],
        ncross,
        Weight::Plus(j as usize),
    ) + seq![GradientTerm { column: 0, source: Source::Centre, weight: d }]
}

/// The terms of the angle pairs from `j` on.
pub open spec fn later_terms(li: int, lj: int, entries: Seq<isize>, ncross: int, j: int) -> Seq<
    GradientTerm,
>
    decreases entries.len() + 1 - j,
{
    if j + 1 >= entries.len() {
        seq![]
    } else {
        step_terms(li, lj, entries, ncross, j) + later_terms(li, lj, entries, ncross, j + 2)
    }
}

/// Appends the term of one entry, if it names a segment.
fn push_entry_term(terms: &mut Vec<GradientTerm>, e: isize, ncross: usize, weight: Weight)
    requires
        ncross < isize::MAX,
    ensures
        final(terms)@ == old(terms)@ + entry_term(e, ncross as int, weight),
{
    if e > 0 && e as usize <= ncross + 1 {
        terms.push(GradientTerm { column: e as usize, source: Source::Other, weight });
    }
    assert(terms@ =~= old(terms)@ + entry_term(e, ncross as int, weight));
}

/// The gradient of the odd dihedral sum `w(0) + (w(2) - w(1)) + (w(4) - w(3)) + ...`
/// on the boundary of segment `li`, whose first free point belongs to segment `lj`.
pub fn odd_gradient_terms(li: usize, lj: usize, entries: &Vec<isize>, ncross: usize) -> (r: Vec<
    GradientTerm,
>)
    requires
        ncross < isize::MAX,
        li < ncross,
        lj < ncross,
    ensures
        r@ == first_terms(li as int, lj as int, entries@, ncross as int) + later_terms(
            li as int,
            lj as int,
            entries@,
            ncross as int,
            2,
        ),
{
    let mut r: Vec<GradientTerm> = Vec::new();
    let n: usize = entries.len();
    if n > 1 && entries[1] > 0 && entries[1] as usize <= ncross + 1 {
        r.push(GradientTerm { column: li + 1, source: Source::Own, weight: Weight::Plus(0) });
        r.push(GradientTerm { column: lj + 1, source: Source::First, weight: Weight::Plus(0) });
        r.push(
            GradientTerm {
                column: entries[1] as usize,
                source: Source::Other,
                weight: Weight::Plus(0),
            },
        );
        r.push(GradientTerm { column: 0, source: Source::Centre, weight: Weight::Plus(0) });
    }
    let ghost whole = first_terms(li as int, lj as int, entries@, ncross as int) + later_terms(
        li as int,
        lj as int,
        entries@,
        ncross as int,
        2,
    );
    assert(r@ =~= first_terms(li as int, lj as int, entries@, ncross as int));
    if n > 2 {
        let mut j: usize = 2;
        while j < n - 1
            invariant
                n == entries@.len(),
                n > 2,
                2 <= j <= n,
                ncross < isize::MAX,
                li < ncross,
                lj < ncross,
                whole == r@ + later_terms(
                    li as int,
                    lj as int,
                    entries@,
                    ncross as int,
                    j as int,
                ),
            decreases n - j,
        {
            let ghost before = r@;
            let d: Weight = Weight::Difference(j);
            r.push(GradientTerm { column: li + 1, source: Source::Own, weight: d });
            r.push(GradientTerm { column: lj + 1, source: Source::First, weight: d });
            push_entry_term(&mut r, entries[j], ncross, Weight::Minus(j - 1));
            push_entry_term(&mut r, entries[j + 1], ncross, Weight::Plus(j));
            r.push(GradientTerm { column: 0, source: Source::Centre, weight: d });
            proof {
                let step = step_terms(li as int, lj as int, entries@, ncross as int, j as int);
                let rest = later_terms(li as int, lj as int, entries@, ncross as int, j + 2);
                assert(r@ =~= before + step);
                assert(before + (step + rest) =~= r@ + rest);
            }
            j += 2;
        }
        assert(whole =~= r@);
    } else {
        assert(whole =~= r@);
    }
    r
}

/// The coefficient with which a term takes the derivative of angle `k`.
pub open spec fn coefficient(w: Weight, k: int) -> int {
    match w {
        Weight::Plus(a) => if a == k { 1 } else { 0 },
        Weight::Minus(a) => if a == k { -1 } else { 0 },
        Weight::Difference(a) => (if a == k { 1int } else { 0 }) - (if a - 1 == k {
            1int
        } else {
            0
        }),
    }
}

/// The total coefficient of one derivative of angle `k`.
pub open spec fn total_coefficient(terms: Seq<GradientTerm>, source: Source, k: int) -> int
    decreases terms.len(),
{
    if terms.len() == 0 {
        0
    } else {
        total_coefficient(terms.drop_last(), source, k) + (if terms.last().source == source {
            coefficient(terms.last().weight, k)
        } else {
            0
        })
    }
}

proof fn lemma_total_coefficient_push(
    terms: Seq<GradientTerm>,
    t: GradientTerm,
    source: Source,
    k: int,
)
    ensures
        total_coefficient(terms.push(t), source, k) == total_coefficient(terms, source, k) + (
        if t.source == source {
            coefficient(t.weight, k)
        } else {
            0
        }),
{
    assert(terms.push(t).drop_last() =~= terms);
}

proof fn lemma_total_coefficient_concat(
    a: Seq<GradientTerm>,
    b: Seq<GradientTerm>,
    source: Source,
    k: int,
)
    ensures
        total_coefficient(a + b, source, k) == total_coefficient(a, source, k) + total_coefficient(
            b,
            source,
            k,
        ),
    decreases b.len(),
{
    if b.len() == 0 {
        assert(a + b =~= a);
    } else {
        assert((a + b).drop_last() =~= a + b.drop_last());
        lemma_total_coefficient_concat(a, b.drop_last(), source, k);
    }
}

/// The coefficient of angle `k` in the alternating sum of the angles from `j` on.
pub open spec fn alternating(n: int, j: int, k: int) -> int
    decreases n + 1 - j,
{
    if j + 1 >= n {
        0
    } else {
        (if j == k { 1int } else { 0 }) - (if j - 1 == k { 1int } else { 0 }) + alternating(
            n,
            j + 2,
            k,
        )
    }
}

proof fn lemma_step_balanced(
    li: int,
    lj: int,
    entries: Seq<isize>,
    ncross: int,
    j: int,
    source: Source,
    k: int,
)
    requires
        0 < j,
        j + 1 < entries.len() <= usize::MAX,
        names_segment(entries[j], ncross),
        names_segment(entries[j + 1], ncross),
    ensures
        total_coefficient(step_terms(li, lj, entries, ncross, j), source, k) == (if j == k {
            1int
        } else {
            0
        }) - (if j - 1 == k { 1int } else { 0 }),
{
    let d = Weight::Difference(j as usize);
    let e: Seq<GradientTerm> = seq![];
    let t1 = GradientTerm { column: (li + 1) as usize, source: Source::Own, weight: d };
    let t2 = GradientTerm { column: (lj + 1) as usize, source: Source::First, weight: d };
    let t3 = entry_term(entries[j], ncross, Weight::Minus((j - 1) as usize))[0];
    let t4 = entry_term(entries[j + 1], ncross, Weight::Plus(j as usize))[0];
    let t5 = GradientTerm { column: 0, source: Source::Centre, weight: d };
    assert(step_terms(li, lj, entries, ncross, j) =~= e.push(t1).push(t2).push(t3).push(t4).push(
        t5,
    ));
    lemma_total_coefficient_push(e, t1, source, k);
    lemma_total_coefficient_push(e.push(t1), t2, source, k);
    lemma_total_coefficient_push(e.push(t1).push(t2), t3, source, k);
    lemma_total_coefficient_push(e.push(t1).push(t2).push(t3), t4, source, k);
    lemma_total_coefficient_push(e.push(t1).push(t2).push(t3).push(t4), t5, source, k);
}

proof fn lemma_later_balanced(
    li: int,
    lj: int,
    entries: Seq<isize>,
    ncross: int,
    j: int,
    source: Source,
    k: int,
)
    requires
        0 < j,
        entries.len() <= usize::MAX,
        forall|x: int| 0 <= x < entries.len() ==> #[trigger] names_segment(entries[x], ncross),
    ensures
        total_coefficient(later_terms(li, lj, entries, ncross, j), source, k) == alternating(
            entries.len() as int,
            j,
            k,
        ),
    decreases entries.len() + 1 - j,
{
    if j + 1 < entries.len() {
        assert(names_segment(entries[j], ncross) && names_segment(entries[j + 1], ncross));
        lemma_step_balanced(li, lj, entries, ncross, j, source, k);
        lemma_later_balanced(li, lj, entries, ncross, j + 2, source, k);
        lemma_total_coefficient_concat(
            step_terms(li, lj, entries, ncross, j),
            later_terms(li, lj, entries, ncross, j + 2),
            source,
            k,
        );
    }
}

/// Every angle enters with the same coefficient, that of the alternating sum, through
/// each of its four derivatives: moving all spheres together leaves the sum unchanged.
pub proof fn law_gradient_closes(
    li: int,
    lj: int,
    entries: Seq<isize>,
    ncross: int,
    source: Source,
    k: int,
)
    requires
        2 <= entries.len() <= usize::MAX,
        forall|x: int| 0 <= x < entries.len() ==> #[trigger] names_segment(entries[x], ncross),
    ensures
        total_coefficient(
            first_terms(li, lj, entries, ncross) + later_terms(li, lj, entries, ncross, 2),
            source,
            k,
        ) == (if k == 0 { 1int } else { 0 }) + alternating(entries.len() as int, 2, k),
{
    let first = first_terms(li, lj, entries, ncross);
    assert(names_segment(entries[1], ncross));
    lemma_total_coefficient_concat(first, later_terms(li, lj, entries, ncross, 2), source, k);
    lemma_later_balanced(li, lj, entries, ncross, 2, source, k);
    let e: Seq<GradientTerm> = seq![];
    assert(first =~= e.push(first[0]).push(first[1]).push(first[2]).push(first[3]));
    lemma_total_coefficient_push(e, first[0], source, k);
    lemma_total_coefficient_push(e.push(first[0]), first[1], source, k);
    lemma_total_coefficient_push(e.push(first[0]).push(first[1]), first[2], source, k);
    lemma_total_coefficient_push(
        e.push(first[0]).push(first[1]).push(first[2]),
        first[3],
        source,
        k,
    );
}

/// The number of whole turns by which the polygon angles are off.
pub open spec fn turns_off(polygons: int, free: int) -> int {
    polygons - free
}

/// The number of whole turns by which the polygon angles are off: polygons minus free
/// points.
pub fn polygon_excess(polygons: usize, free: usize) -> (r: isize)
    requires
        polygons <= isize::MAX,
        free <= isize::MAX,
    ensures
        r == turns_off(polygons as int, free as int),
{
    polygons as isize - free as isize
}

/// The edge that is found is the first one at an odd place that leads to the target and is not
/// used; none is found exactly when there is no such edge.
pub proof fn law_find_edge(entries: Seq<isize>, target: int, m: int)
    requires
        1 <= m,
        m % 2 == 1,
    ensures
        ({
            let r = find_edge(entries, target, m);
            &&& r >= 0 ==> {
                &&& m <= r < entries.len() && r % 2 == 1
                &&& entries[r] == target && entries[r - 1] > 0
                &&& forall|x: int|
                    m <= x < r && x % 2 == 1 ==> !(#[trigger] entries[x] == target && entries[x - 1]
                        > 0)
            }
            &&& r < 0 ==> forall|x: int|
                m <= x < entries.len() && x % 2 == 1 ==> !(#[trigger] entries[x] == target
                    && entries[x - 1] > 0)
        }),
    decreases entries.len() + 1 - m,
{
    if m < entries.len() && !(entries[m] == target && entries[m - 1] > 0) {
        law_find_edge(entries, target, m + 2);
        let r = find_edge(entries, target, m);
        assert forall|x: int|
            m <= x < (if r >= 0 { r } else { entries.len() as int }) && x % 2 == 1 implies !(
        #[trigger] entries[x] == target && entries[x - 1] > 0) by {
            if x > m {
                assert(x >= m + 2);
            }
        }
    }
}

/// Marking an entry as used clears that entry and no other.
pub proof fn law_used(cols: Seq<Seq<isize>>, s: int, m: int, a: int, b: int)
    requires
        0 <= s < cols.len(),
        0 <= m < cols[s].len(),
        0 <= a < cols.len(),
        0 <= b < cols[a].len(),
    ensures
        used(cols, s, m)[a].len() == cols[a].len(),
        used(cols, s, m)[s][m] == 0,
        (a, b) != (s, m) ==> used(cols, s, m)[a][b] == cols[a][b],
{
}

/// Vertices that follow each other around a polygon, coming from segment `ib` to segment `ia`:
/// each leads from the segment that the one before led to, and stands in the columns of its two
/// segments; the one that closes the polygon repeats the last angle in the columns of its start.
pub open spec fn follows(vs: Seq<Vertex>, ia: int, ib: int, start: (int, int)) -> bool
    decreases vs.len(),
{
    ||| vs.len() == 0
    ||| vs.len() == 1 && vs[0].angle == (ia as usize, ib as usize) && vs[0].columns == (
        start.0 as usize,
        start.1 as usize,
    )
    ||| {
        &&& vs[0].columns == vs[0].angle
        &&& vs[0].angle.1 == ia as usize
        &&& follows(vs.skip(1), vs[0].angle.0 as int, ia, start)
    }
}

/// A walk goes around: every vertex follows the one before it.
pub proof fn law_walk_follows(cols: Seq<Seq<isize>>, ia: int, ib: int, start: (int, int))
    requires
        walkable(cols),
        0 <= ia < cols.len() <= usize::MAX,
        0 <= ib < cols.len(),
    ensures
        follows(walk(cols, ia, ib, start).1, ia, ib, start),
    decreases unused(cols),
{
    let m = find_edge(cols[ia], ib + 1, 1);
    let vs = walk(cols, ia, ib, start).1;
    law_find_edge(cols[ia], ib + 1, 1);
    if m >= 0 {
        let next = next_segment(cols, ia, m);
        let marked = used(cols, ia, m);
        if next != ib {
            lemma_find_edge(cols[ia], ib + 1, 1);
            lemma_used(cols, ia, m);
            assert(0 <= cols[ia][m - 1] <= cols.len());
            assert(0 <= next < cols.len());
            law_walk_follows(marked, next, ia, start);
            let rest = walk(marked, next, ia, start).1;
            assert(vs == seq![meeting(next, ia)] + rest);
            assert(vs.skip(1) =~= rest);
            assert(vs[0] == meeting(next, ia));
        }
    }
}

/// A contribution goes to the column of the segment that it comes from: the segment's own, its
/// neighbour's, the centre's; what comes from another segment is weighted by an angle, and goes to
/// the segment that ends that angle.
pub open spec fn well_placed(t: GradientTerm, li: int, lj: int, entries: Seq<isize>) -> bool {
    match t.source {
        Source::Own => t.column == li + 1,
        Source::First => t.column == lj + 1,
        Source::Centre => t.column == 0,
        Source::Other => match t.weight {
            Weight::Plus(k) => k + 1 < entries.len() && t.column == entries[k + 1],
            Weight::Minus(k) => k + 1 < entries.len() && t.column == entries[k + 1],
            Weight::Difference(k) => false,
        },
    }
}

proof fn lemma_later_placed(
    li: int,
    lj: int,
    entries: Seq<isize>,
    ncross: int,
    j: int,
    i: int,
)
    requires
        0 <= li < usize::MAX,
        0 <= lj < usize::MAX,
        entries.len() <= usize::MAX,
        2 <= j,
        0 <= i < later_terms(li, lj, entries, ncross, j).len(),
    ensures
        well_placed(later_terms(li, lj, entries, ncross, j)[i], li, lj, entries),
    decreases entries.len() + 1 - j,
{
    let own = step_terms(li, lj, entries, ncross, j);
    let rest = later_terms(li, lj, entries, ncross, j + 2);
    if j + 1 < entries.len() {
        if i < own.len() {
            assert(later_terms(li, lj, entries, ncross, j)[i] == own[i]);
        } else {
            assert(later_terms(li, lj, entries, ncross, j)[i] == rest[i - own.len()]);
            lemma_later_placed(li, lj, entries, ncross, j + 2, i - own.len());
        }
    }
}

/// Every contribution to the gradient of a boundary goes to the column of its own segment.
pub proof fn law_terms_well_placed(li: int, lj: int, entries: Seq<isize>, ncross: int, i: int)
    requires
        0 <= li < usize::MAX,
        0 <= lj < usize::MAX,
        entries.len() <= usize::MAX,
        0 <= i < (first_terms(li, lj, entries, ncross) + later_terms(
            li,
            lj,
            entries,
            ncross,
            2,
        )).len(),
    ensures
        well_placed(
            (first_terms(li, lj, entries, ncross) + later_terms(li, lj, entries, ncross, 2))[i],
            li,
            lj,
            entries,
        ),
{
    let first = first_terms(li, lj, entries, ncross);
    if i >= first.len() {
        lemma_later_placed(li, lj, entries, ncross, 2, i - first.len());
    }
}

/// An entry names a segment exactly when it is positive and no more than one beyond the number of
/// crossing spheres.
pub proof fn law_names_segment(e: isize, ncross: int)
    ensures
        names_segment(e, ncross) <==> 1 <= e && e - 1 <= ncross,
{
}

/// Each polygon adds a whole turn and each free point takes one away.
pub proof fn law_turns_off(polygons: int, free: int)
    ensures
        turns_off(polygons + 1, free) == turns_off(polygons, free) + 1,
        turns_off(polygons, free + 1) == turns_off(polygons, free) - 1,
        turns_off(0, 0) == 0,
{
}

/// A polygon starts where the walk enters it: its first vertex is followed by those of the walk, and
/// the one that closes it stands in the columns of the first.
pub proof fn law_polygon_follows(cols: Seq<Seq<isize>>, li: int, j: int, ib: int)
    requires
        walkable(cols),
        0 <= li < cols.len() <= usize::MAX,
        1 <= j < cols[li].len(),
        j % 2 == 1,
        0 <= ib,
    ensures
        ({
            let ia = cols[li][j - 1] - 1;
            follows(
                seq![meeting(ia, li)] + walk(used(cols, li, j), ia, li, (ia, li)).1,
                li,
                ib,
                (ia, li),
            )
        }),
{
    let ia = cols[li][j - 1] - 1;
    assert(0 <= cols[li][j - 1] <= cols.len());
    let marked = used(cols, li, j);
    assert(walkable(marked)) by {
        assert forall|s: int, m: int| 0 <= s < marked.len() && 0 <= m < marked[s].len() implies {
            &&& 0 <= #[trigger] marked[s][m] <= marked.len()
            &&& m % 2 == 0 ==> marked[s][m] >= 1
        } by {
            assert(marked[s].len() == cols[s].len());
            assert(0 <= cols[s][m] <= cols.len());
        }
    }
    law_walk_follows(marked, ia, li, (ia, li));
    let rest = walk(marked, ia, li, (ia, li)).1;
    let vs = seq![meeting(ia, li)] + rest;
    assert(vs.skip(1) =~= rest);
    assert(vs[0] == meeting(ia, li));
}

} // verus!
