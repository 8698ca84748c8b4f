//! Spherical segments cut out of one atomic sphere by its neighbours: which
//! neighbours cut it, which segments overlap, and which of their intersection
//! points lie on the accessible boundary.

use crate::binary64::Real;
use crate::packed::{lemma_triangle_monotone, lemma_triangle_step, triangle};
use crate::sequences::{ints, lemma_ints_push, positions};
use vstd::prelude::*;

verus! {

/// Square boolean matrix, stored by rows.
pub struct MatrixBool {
    pub data: Vec<bool>,
    pub n: usize,
}

impl MatrixBool {
    /// The storage holds one flag per cell.
    pub open spec fn wf(&self) -> bool {
        self.data@.len() == self.n * self.n
    }

    /// The flag in row `i`, column `j`.
    pub open spec fn cell(&self, i: int, j: int) -> bool {
        self.data@[i * self.n + j]
    }

    /// Whether segment `i` lies inside another one: the diagonal flag.
    pub open spec fn hidden(&self, i: int) -> bool {
        self.cell(i, i)
    }

    /// Whether visible segment `i` overlaps some other visible segment.
    pub open spec fn clustered(&self, i: int) -> bool {
        !self.hidden(i) && exists|j: int|
            0 <= j < self.n && !#[trigger] self.hidden(j) && self.cell(j, i)
    }

    /// The matrix of order `n` with every flag cleared.
    pub fn new(n: usize) -> (m: MatrixBool)
        requires
            n * n <= usize::MAX,
        ensures
            m.wf(),
            m.n == n,
            forall|k: int| 0 <= k < n * n ==> !m.data@[k],
    {
        let mut data: Vec<bool> = Vec::new();
        let total: usize = n * n;
        let mut k: usize = 0;
        while k < total
            invariant
                k <= total,
                data@.len() == k,
                forall|i: int| 0 <= i < k ==> !data@[i],
            decreases total - k,
        {
            data.push(false);
            k += 1;
        }
        MatrixBool { data, n }
    }

    /// Reads the flag in row `i`, column `j`.
    pub fn at(&self, i: usize, j: usize) -> (b: bool)
        requires
            self.wf(),
            i * self.n + j < self.n * self.n,
        ensures
            b == self.cell(i as int, j as int),
    {
        proof {
            assert(self.data.len() == self.n * self.n);
            lemma_row_start(i as int, self.n as int, j as int);
        }
        self.data[i * self.n + j]
    }

    /// Writes the flag in row `i`, column `j`.
    pub fn set(&mut self, i: usize, j: usize, v: bool)
        requires
            old(self).wf(),
            i * old(self).n + j < old(self).n * old(self).n,
        ensures
            final(self).wf(),
            final(self).n == old(self).n,
            final(self).data@ == old(self).data@.update(i * old(self).n + j, v),
    {
        proof {
            assert(self.data.len() == self.n * self.n);
            lemma_row_start(i as int, self.n as int, j as int);
        }
        let k: usize = i * self.n + j;
        self.data.set(k, v);
    }
}

/// A row starts inside the matrix when one of its cells lies inside.
proof fn lemma_row_start(i: int, n: int, j: int)
    requires
        0 <= i,
        0 <= j,
        0 <= n,
        i * n + j < n * n,
        n * n <= usize::MAX,
    ensures
        0 <= i * n <= usize::MAX,
{
    assert(0 <= i * n) by (nonlinear_arith)
        requires
            0 <= i,
            0 <= n,
    ;
}

/// Cells with different coordinates have different positions.
pub proof fn lemma_cells(n: int, i: int, j: int, k: int, l: int)
    requires
        0 <= i < n,
        0 <= j < n,
        0 <= k < n,
        0 <= l < n,
    ensures
        0 <= i * n + j < n * n,
        i * n + j == k * n + l ==> i == k && j == l,
{
    assert(0 <= i * n + j < n * n) by (nonlinear_arith)
        requires
            0 <= i < n,
            0 <= j < n,
    ;
    if i < k {
        assert(i * n + j < k * n) by (nonlinear_arith)
            requires
                0 <= i < k,
                0 <= j < n,
        ;
    }
    if k < i {
        assert(k * n + l < i * n) by (nonlinear_arith)
            requires
                0 <= k < i,
                0 <= l < n,
        ;
    }
}

/// What a write leaves in every cell of a matrix.
proof fn lemma_set_cell(before: &MatrixBool, after: &MatrixBool, i: int, j: int, v: bool)
    requires
        before.wf(),
        after.n == before.n,
        0 <= i < before.n,
        0 <= j < before.n,
        after.data@ == before.data@.update(i * before.n + j, v),
    ensures
        forall|a: int, b: int|
            0 <= a < before.n && 0 <= b < before.n ==> #[trigger] after.cell(a, b) == (if a == i
                && b == j {
                v
            } else {
                before.cell(a, b)
            }),
{
    assert forall|a: int, b: int| 0 <= a < before.n && 0 <= b < before.n implies #[trigger]
        after.cell(a, b) == (if a == i && b == j {
        v
    } else {
        before.cell(a, b)
    }) by {
        lemma_cells(before.n as int, i, j, a, b);
        lemma_cells(before.n as int, a, b, i, j);
    }
}

/// A write followed by a read: the written cell changes, every other cell is kept.
pub proof fn law_matrix_bool_set(
    before: &MatrixBool,
    after: &MatrixBool,
    i: int,
    j: int,
    v: bool,
    a: int,
    b: int,
)
    requires
        before.wf(),
        after.n == before.n,
        0 <= i < before.n,
        0 <= j < before.n,
        0 <= a < before.n,
        0 <= b < before.n,
        after.data@ == before.data@.update(i * before.n + j, v),
    ensures
        after.cell(i, j) == v,
        (a, b) != (i, j) ==> after.cell(a, b) == before.cell(a, b),
{
    lemma_set_cell(before, after, i, j, v);
    assert(after.cell(i, j) == v);
}

/// How a neighbouring sphere stands to the sphere under study.
#[derive(Clone, Copy, Debug, PartialEq, Eq, Structural)]
pub enum Overlap {
    /// The neighbour has no extent.
    Absent,
    /// The spheres do not meet.
    Apart,
    /// The sphere under study lies inside the neighbour.
    Engulfed,
    /// The neighbour lies inside the sphere under study.
    Engulfing,
    /// The spheres cut each other.
    Partial,
}

/// The comparison of two spheres of radii `rk` and `ri`: `reach` is what the two
/// radii exceed the distance by, `clearance` what the distance exceeds the
/// difference of the radii by.
pub open spec fn overlap_of(rk: Real, ri: Real, reach: Real, clearance: Real, eps: Real) -> Overlap {
    if ri.at_most(crate::binary64::zero()) {
        Overlap::Absent
    } else if reach.below(eps) {
        Overlap::Apart
    } else if clearance.below(eps) {
        if rk.at_most(ri) {
            Overlap::Engulfed
        } else {
            Overlap::Engulfing
        }
    } else {
        Overlap::Partial
    }
}

/// Classifies one neighbour of the sphere under study.
pub fn classify_overlap(rk: Real, ri: Real, reach: Real, clearance: Real, eps: Real) -> (o: Overlap)
    ensures
        o == overlap_of(rk, ri, reach, clearance, eps),
{
    if ri.le(Real { bits: 0 }) {
        Overlap::Absent
    } else if reach.lt(eps) {
        Overlap::Apart
    } else if clearance.lt(eps) {
        if rk.le(ri) {
            Overlap::Engulfed
        } else {
            Overlap::Engulfing
        }
    } else {
        Overlap::Partial
    }
}

/// Whether sphere `k` lies inside another sphere.
pub open spec fn engulfed(overlaps: Seq<Overlap>, k: int) -> bool {
    exists|i: int| 0 <= i < overlaps.len() && i != k && #[trigger] overlaps[i] == Overlap::Engulfed
}

/// Whether a sphere cuts sphere `k`.
pub open spec fn cuts(overlaps: Seq<Overlap>, k: int) -> spec_fn(int) -> bool {
    |i: int| i != k && overlaps[i] == Overlap::Partial
}

/// The spheres that cut sphere `k`.
pub open spec fn cutting(overlaps: Seq<Overlap>, k: int) -> Seq<int> {
    positions(overlaps.len(), cuts(overlaps, k))
}

/// The spheres that cut sphere `k`, in ascending order; `None` when sphere `k` is
/// buried inside one of the others.
pub fn cutting_spheres(k: usize, overlaps: &Vec<Overlap>) -> (r: Option<Vec<usize>>)
    ensures
        r is None <==> engulfed(overlaps@, k as int),
        r matches Some(v) ==> ints(v@) == cutting(overlaps@, k as int),
{
    let mut found: Vec<usize> = Vec::new();
    let mut i: usize = 0;
    assert(ints(found@) =~= seq![]);
    while i < overlaps.len()
        invariant
            i <= overlaps.len(),
            ints(found@) == positions(i as nat, cuts(overlaps@, k as int)),
            forall|x: int| 0 <= x < i && x != k ==> #[trigger] overlaps@[x] != Overlap::Engulfed,
        decreases overlaps.len() - i,
    {
        if i != k {
            match overlaps[i] {
                Overlap::Engulfed => {
                    assert(overlaps@[i as int] == Overlap::Engulfed);
                    return None;
                },
                Overlap::Partial => {
                    proof {
                        lemma_ints_push(found@, i);
                    }
                    found.push(i);
                },
                _ => {},
            }
        }
        i += 1;
    }
    Some(found)
}

/// How two segments of one sphere stand to each other; the first has the smaller index.
#[derive(Clone, Copy, Debug, PartialEq, Eq, Structural)]
pub enum Relation {
    /// The first segment lies inside the second.
    HidesFirst,
    /// The second segment lies inside the first.
    HidesSecond,
    /// The two segments cover the whole sphere.
    Covers,
    /// The boundaries cross.
    Linked,
    /// The segments do not meet.
    Separate,
}

/// The quantities by which two segments are compared.
#[derive(Clone, Copy, Debug, PartialEq, Eq, Structural)]
pub struct PairGeometry {
    /// Cosine of the half angle of the first segment.
    pub cos_first: Real,
    /// Cosine of the half angle of the second segment.
    pub cos_second: Real,
    /// `cos(i, j) - cos(i) cos(j)`.
    pub excess: Real,
    /// Above this excess one segment contains the other.
    pub nesting_bound: Real,
    /// Sine of the sum of the half angles.
    pub sine_sum: Real,
    /// Above this excess the boundaries cross, for half angles summing to at most pi.
    pub crossing_bound: Real,
    /// Up to this excess the segments cover the sphere, for half angles summing to more.
    pub covering_bound: Real,
}

/// The relation of two segments.
pub open spec fn relation_of(g: PairGeometry) -> Relation {
    if g.nesting_bound.below(g.excess) {
        if g.cos_second.below(g.cos_first) {
            Relation::HidesFirst
        } else {
            Relation::HidesSecond
        }
    } else if crate::binary64::zero().at_most(g.sine_sum) {
        if g.crossing_bound.below(g.excess) {
            Relation::Linked
        } else {
            Relation::Separate
        }
    } else if g.excess.at_most(g.covering_bound) {
        Relation::Covers
    } else {
        Relation::Linked
    }
}

/// Decides the relation of two segments.
pub fn relate(g: PairGeometry) -> (r: Relation)
    ensures
        r == relation_of(g),
{
    if g.excess.gt(g.nesting_bound) {
        if g.cos_first.gt(g.cos_second) {
            Relation::HidesFirst
        } else {
            Relation::HidesSecond
        }
    } else if g.sine_sum.ge(Real { bits: 0 }) {
        if g.excess.gt(g.crossing_bound) {
            Relation::Linked
        } else {
            Relation::Separate
        }
    } else if g.excess.le(g.covering_bound) {
        Relation::Covers
    } else {
        Relation::Linked
    }
}

/// The relation of segments `j < i`, out of a list with one entry per pair, row by row.
#[verifier::opaque]
pub open spec fn relation_at(relations: Seq<Relation>, i: int, j: int) -> Relation {
    relations[triangle(i - 1) + j]
}

/// The flags raised by comparing segment `i` with segments `j`, `j + 1`, ..., `i - 1`:
/// hidden segments on the diagonal, linked pairs off it. Hidden segments are passed
/// over, and the row ends once `i` itself turns out hidden. `None` when some pair
/// covers the sphere.
pub open spec fn link_row(
    relations: Seq<Relation>,
    cells: Set<(int, int)>,
    i: int,
    j: int,
) -> Option<Set<(int, int)>>
    decreases i - j,
{
    if j >= i {
        Some(cells)
    } else if cells.contains((j, j)) {
        link_row(relations, cells, i, j + 1)
    } else {
        match relation_at(relations, i, j) {
            Relation::HidesFirst => link_row(relations, cells.insert((j, j)), i, j + 1),
            Relation::HidesSecond => Some(cells.insert((i, i))),
            Relation::Covers => None,
            Relation::Linked => link_row(
                relations,
                cells.insert((j, i)).insert((i, j)),
                i,
                j + 1,
            ),
            Relation::Separate => link_row(relations, cells, i, j + 1),
        }
    }
}

/// The flags raised by rows `i`, `i + 1`, ..., `n - 1`.
pub open spec fn link_rows(
    relations: Seq<Relation>,
    cells: Set<(int, int)>,
    i: int,
    n: int,
) -> Option<Set<(int, int)>>
    decreases n - i,
{
    if i >= n {
        Some(cells)
    } else {
        match link_row(relations, cells, i, 0) {
            None => None,
            Some(c) => link_rows(relations, c, i + 1, n),
        }
    }
}

/// The flags of `n` segments compared pair by pair.
pub open spec fn links(relations: Seq<Relation>, n: int) -> Option<Set<(int, int)>> {
    link_rows(relations, Set::empty(), 1, n)
}

/// The matrix holds exactly the given flags.
pub open spec fn holds_flags(m: &MatrixBool, cells: Set<(int, int)>) -> bool {
    forall|a: int, b: int|
        0 <= a < m.n && 0 <= b < m.n ==> (#[trigger] m.cell(a, b) <==> cells.contains((a, b)))
}

/// Connectivity of `n` segments from the relations of all pairs; `None` when two
/// segments cover the sphere.
pub fn connect_segments(n: usize, relations: &Vec<Relation>) -> (r: Option<MatrixBool>)
    requires
        n >= 1,
        n * n <= usize::MAX,
        relations@.len() == triangle(n - 1),
    ensures
        r is None <==> links(relations@, n as int) is None,
        r matches Some(m) ==> m.wf() && m.n == n && holds_flags(
            &m,
            links(relations@, n as int)->0,
        ),
{
    let mut m = MatrixBool::new(n);
    let ghost mut cells: Set<(int, int)> = Set::empty();
    assert(holds_flags(&m, cells)) by {
        assert forall|a: int, b: int| 0 <= a < n && 0 <= b < n implies (#[trigger] m.cell(a, b)
            <==> cells.contains((a, b))) by {
            lemma_cells(n as int, a, b, a, b);
        }
    }
    let mut i: usize = 1;
    let mut start: usize = 0;
    while i < n
        invariant
            1 <= i <= n,
            n * n <= usize::MAX,
            relations@.len() == triangle(n - 1),
            start == triangle(i - 1),
            m.wf(),
            m.n == n,
            holds_flags(&m, cells),
            links(relations@, n as int) == link_rows(relations@, cells, i as int, n as int),
        decreases n - i,
    {
        proof {
            lemma_triangle_step(i - 1);
            lemma_triangle_monotone(i as int, n - 1);
            assert(relations.len() == triangle(n - 1));
        }
        let mut j: usize = 0;
        let mut open: bool = true;
        let ghost row = link_row(relations@, cells, i as int, 0);
        while open && j < i
            invariant
                1 <= i < n,
                j <= i,
                n * n <= usize::MAX,
                relations@.len() == triangle(n - 1),
                start == triangle(i - 1),
                start + i == triangle(i as int),
                triangle(i as int) <= triangle(n - 1),
                m.wf(),
                m.n == n,
                holds_flags(&m, cells),
                open ==> row == link_row(relations@, cells, i as int, j as int),
                !open ==> row == Some(cells),
                links(relations@, n as int) is None <==> (row matches Some(c) ==> link_rows(
                    relations@,
                    c,
                    i + 1,
                    n as int,
                ) is None),
                row matches Some(c) ==> links(relations@, n as int) == link_rows(
                    relations@,
                    c,
                    i + 1,
                    n as int,
                ),
            decreases i - j, open as int,
        {
            proof {
                lemma_cells(n as int, j as int, j as int, j as int, j as int);
                lemma_cells(n as int, i as int, i as int, i as int, i as int);
                lemma_cells(n as int, i as int, j as int, i as int, j as int);
                lemma_cells(n as int, j as int, i as int, j as int, i as int);
                assert(relations.len() == triangle(n - 1));
            }
            assert(m.cell(j as int, j as int) <==> cells.contains((j as int, j as int)));
            if m.at(j, j) {
                j += 1;
                continue;
            }
            let ghost before = m;
            proof {
                reveal(relation_at);
            }
            match relations[start + j] {
                Relation::HidesFirst => {
                    m.set(j, j, true);
                    proof {
                        lemma_set_cell(&before, &m, j as int, j as int, true);
                        cells = cells.insert((j as int, j as int));
                    }
                },
                Relation::HidesSecond => {
                    m.set(i, i, true);
                    proof {
                        lemma_set_cell(&before, &m, i as int, i as int, true);
                        cells = cells.insert((i as int, i as int));
                    }
                    open = false;
                },
                Relation::Covers => {
                    return None;
                },
                Relation::Linked => {
                    m.set(j, i, true);
                    let ghost middle = m;
                    m.set(i, j, true);
                    proof {
                        lemma_set_cell(&before, &middle, j as int, i as int, true);
                        lemma_set_cell(&middle, &m, i as int, j as int, true);
                        cells = cells.insert((j as int, i as int)).insert((i as int, j as int));
                    }
                },
                Relation::Separate => {},
            }
            j += 1;
        }
        assert(relations.len() == triangle(n - 1));
        start += i;
        i += 1;
    }
    Some(m)
}

/// Segment pairs `a > b` that have been compared once rows below `i` and the
/// columns below `j` of row `i` are done.
spec fn compared(i: int, j: int, a: int, b: int) -> bool {
    0 <= b < a && (a < i || (a == i && b < j))
}

/// What is known of a compared pair.
spec fn pair_sound(relations: Seq<Relation>, cells: Set<(int, int)>, a: int, b: int) -> bool {
    !cells.contains((a, a)) && !cells.contains((b, b)) ==> {
        &&& (cells.contains((a, b)) <==> relation_at(relations, a, b) == Relation::Linked)
        &&& (relation_at(relations, a, b) == Relation::Linked || relation_at(relations, a, b)
            == Relation::Separate)
    }
}

/// A flag off the diagonal is raised for both orders of a compared pair.
spec fn cell_sound(cells: Set<(int, int)>, i: int, j: int, a: int, b: int) -> bool {
    cells.contains((a, b)) ==> cells.contains((b, a)) && (if a > b {
        compared(i, j, a, b)
    } else {
        compared(i, j, b, a)
    })
}

/// What the flags say after the comparisons made so far.
spec fn flags_sound(relations: Seq<Relation>, cells: Set<(int, int)>, i: int, j: int) -> bool {
    &&& forall|a: int, b: int|
        compared(i, j, a, b) ==> #[trigger] pair_sound(relations, cells, a, b)
    &&& forall|a: int, b: int| a != b ==> #[trigger] cell_sound(cells, i, j, a, b)
}

/// Flags stay sound when the comparisons advance to `(i2, j2)` and flags are added
/// for hidden segments or for the pair `(i, j)`.
proof fn lemma_flags_advance(
    relations: Seq<Relation>,
    cells: Set<(int, int)>,
    next: Set<(int, int)>,
    i: int,
    j: int,
    i2: int,
    j2: int,
)
    requires
        0 <= j <= i,
        flags_sound(relations, cells, i, j),
        forall|a: int, b: int| compared(i, j, a, b) ==> #[trigger] compared(i2, j2, a, b),
        forall|a: int, b: int|
            #[trigger] compared(i2, j2, a, b) ==> compared(i, j, a, b) || pair_sound(
                relations,
                next,
                a,
                b,
            ),
        forall|a: int| cells.contains((a, a)) ==> #[trigger] next.contains((a, a)),
        forall|a: int, b: int|
            a != b && (a, b) != (i, j) && (a, b) != (j, i) ==> (#[trigger] next.contains((a, b))
                <==> cells.contains((a, b))),
        next.contains((i, j)) <==> next.contains((j, i)),
        next.contains((i, j)) && i != j ==> compared(i2, j2, i, j),
        !compared(i, j, i, j),
    ensures
        flags_sound(relations, next, i2, j2),
{
    assert forall|a: int, b: int| compared(i2, j2, a, b) implies #[trigger] pair_sound(
        relations,
        next,
        a,
        b,
    ) by {
        if compared(i, j, a, b) {
            assert(pair_sound(relations, cells, a, b));
            assert(cells.contains((a, a)) ==> next.contains((a, a)));
            assert(cells.contains((b, b)) ==> next.contains((b, b)));
            assert((a, b) != (i, j) && (a, b) != (j, i));
            assert(next.contains((a, b)) <==> cells.contains((a, b)));
        }
    }
    assert forall|a: int, b: int| a != b implies #[trigger] cell_sound(next, i2, j2, a, b) by {
        assert(cell_sound(cells, i, j, a, b));
        if (a, b) != (i, j) && (a, b) != (j, i) {
            assert(next.contains((a, b)) <==> cells.contains((a, b)));
            assert(next.contains((b, a)) <==> cells.contains((b, a)));
            assert(compared(i, j, a, b) ==> compared(i2, j2, a, b));
            assert(compared(i, j, b, a) ==> compared(i2, j2, b, a));
        }
    }
}

/// One row of comparisons keeps the flags sound.
proof fn lemma_link_row_sound(relations: Seq<Relation>, cells: Set<(int, int)>, i: int, j: int)
    requires
        0 <= j <= i,
        flags_sound(relations, cells, i, j),
        link_row(relations, cells, i, j) is Some,
    ensures
        flags_sound(relations, link_row(relations, cells, i, j)->0, i + 1, 0),
    decreases i - j,
{
    if j < i {
        assert(cell_sound(cells, i, j, i, j));
        assert(cell_sound(cells, i, j, j, i));
    }
    if j >= i {
        lemma_flags_advance(relations, cells, cells, i, j, i + 1, 0);
    } else if cells.contains((j, j)) {
        assert(pair_sound(relations, cells, i, j));
        lemma_flags_advance(relations, cells, cells, i, j, i, j + 1);
        lemma_link_row_sound(relations, cells, i, j + 1);
    } else {
        match relation_at(relations, i, j) {
            Relation::HidesFirst => {
                let c = cells.insert((j, j));
                assert(pair_sound(relations, c, i, j));
                lemma_flags_advance(relations, cells, c, i, j, i, j + 1);
                lemma_link_row_sound(relations, c, i, j + 1);
            },
            Relation::HidesSecond => {
                let c = cells.insert((i, i));
                assert forall|b: int| b < i implies #[trigger] pair_sound(relations, c, i, b) by {}
                lemma_flags_advance(relations, cells, c, i, j, i + 1, 0);
            },
            Relation::Covers => {},
            Relation::Linked => {
                let c = cells.insert((j, i)).insert((i, j));
                assert(pair_sound(relations, c, i, j));
                lemma_flags_advance(relations, cells, c, i, j, i, j + 1);
                lemma_link_row_sound(relations, c, i, j + 1);
            },
            Relation::Separate => {
                assert(pair_sound(relations, cells, i, j));
                lemma_flags_advance(relations, cells, cells, i, j, i, j + 1);
                lemma_link_row_sound(relations, cells, i, j + 1);
            },
        }
    }
}

/// All remaining rows keep the flags sound.
proof fn lemma_link_rows_sound(relations: Seq<Relation>, cells: Set<(int, int)>, i: int, n: int)
    requires
        0 <= i <= n,
        flags_sound(relations, cells, i, 0),
        link_rows(relations, cells, i, n) is Some,
    ensures
        flags_sound(relations, link_rows(relations, cells, i, n)->0, n, 0),
    decreases n - i,
{
    if i < n {
        lemma_link_row_sound(relations, cells, i, 0);
        lemma_link_rows_sound(relations, link_row(relations, cells, i, 0)->0, i + 1, n);
    }
}

/// Connectivity is symmetric, and two visible segments are linked exactly when
/// their boundaries cross; they are otherwise separate, never nested or covering.
pub proof fn law_links(relations: Seq<Relation>, n: int, a: int, b: int)
    requires
        1 <= n,
        0 <= b < a < n,
        links(relations, n) is Some,
    ensures
        ({
            let cells = links(relations, n)->0;
            &&& cells.contains((a, b)) <==> cells.contains((b, a))
            &&& !cells.contains((a, a)) && !cells.contains((b, b)) ==> {
                &&& (cells.contains((a, b)) <==> relation_at(relations, a, b) == Relation::Linked)
                &&& (relation_at(relations, a, b) == Relation::Linked || relation_at(
                    relations,
                    a,
                    b,
                ) == Relation::Separate)
            }
        }),
{
    assert(flags_sound(relations, Set::empty(), 1, 0));
    lemma_link_rows_sound(relations, Set::empty(), 1, n);
    let cells = links(relations, n)->0;
    assert(compared(n, 0, a, b));
    assert(pair_sound(relations, cells, a, b));
    assert(cell_sound(cells, n, 0, a, b) && cell_sound(cells, n, 0, b, a));
}

impl MatrixBool {
    /// The visible segments that overlap another visible one.
    pub open spec fn cluster(&self) -> spec_fn(int) -> bool {
        |i: int| self.clustered(i)
    }

    /// The visible segments that overlap no other visible one.
    pub open spec fn isolated(&self) -> spec_fn(int) -> bool {
        |i: int| !self.hidden(i) && !self.clustered(i)
    }
}

/// Separates the visible segments into those that overlap another visible segment
/// and those that stand alone, each list in ascending order.
pub fn split_segments(conect: &MatrixBool) -> (r: (Vec<usize>, Vec<usize>))
    requires
        conect.wf(),
    ensures
        ints(r.0@) == positions(conect.n as nat, conect.cluster()),
        ints(r.1@) == positions(conect.n as nat, conect.isolated()),
{
    let n: usize = conect.n;
    let mut lab: Vec<usize> = Vec::new();
    let mut alone: Vec<usize> = Vec::new();
    assert(ints(lab@) =~= seq![]);
    assert(ints(alone@) =~= seq![]);
    let mut i: usize = 0;
    while i < n
        invariant
            i <= n,
            n == conect.n,
            conect.wf(),
            ints(lab@) == positions(i as nat, conect.cluster()),
            ints(alone@) == positions(i as nat, conect.isolated()),
        decreases n - i,
    {
        proof {
            lemma_cells(n as int, i as int, i as int, i as int, i as int);
        }
        if !conect.at(i, i) {
            let mut j: usize = 0;
            let mut found: bool = false;
            while !found && j < n
                invariant
                    j <= n,
                    i < n,
                    n == conect.n,
                    conect.wf(),
                    !conect.hidden(i as int),
                    found ==> conect.clustered(i as int),
                    !found ==> forall|x: int|
                        0 <= x < j && !#[trigger] conect.hidden(x) ==> !conect.cell(x, i as int),
                decreases n - j, !found as int,
            {
                proof {
                    lemma_cells(n as int, j as int, j as int, j as int, j as int);
                    lemma_cells(n as int, j as int, i as int, j as int, i as int);
                }
                if !conect.at(j, j) && conect.at(j, i) {
                    assert(!conect.hidden(j as int));
                    found = true;
                }
                j += 1;
            }
            if found {
                proof {
                    lemma_ints_push(lab@, i);
                }
                lab.push(i);
            } else {
                proof {
                    lemma_ints_push(alone@, i);
                }
                alone.push(i);
            }
        }
        i += 1;
    }
    (lab, alone)
}

/// Whether the clustered segment at position `q` overlaps both segments `li` and `lj`.
pub open spec fn overlaps_both(
    conect: &MatrixBool,
    lab: Seq<usize>,
    li: int,
    lj: int,
) -> spec_fn(int) -> bool {
    |q: int|
        lab[q] != li && lab[q] != lj && conect.cell(lab[q] as int, li) && conect.cell(
            lab[q] as int,
            lj,
        )
}

/// The positions, among the clustered segments, of those that overlap both `li` and `lj`:
/// the only ones that can bury an intersection point of the two.
pub fn common_neighbours(conect: &MatrixBool, lab: &Vec<usize>, li: usize, lj: usize) -> (r: Vec<
    usize,
>)
    requires
        conect.wf(),
        li < conect.n,
        lj < conect.n,
        forall|q: int| 0 <= q < lab@.len() ==> #[trigger] lab@[q] < conect.n,
    ensures
        ints(r@) == positions(lab@.len(), overlaps_both(conect, lab@, li as int, lj as int)),
{
    let mut r: Vec<usize> = Vec::new();
    assert(ints(r@) =~= seq![]);
    let mut q: usize = 0;
    while q < lab.len()
        invariant
            q <= lab@.len(),
            conect.wf(),
            li < conect.n,
            lj < conect.n,
            forall|q: int| 0 <= q < lab@.len() ==> #[trigger] lab@[q] < conect.n,
            ints(r@) == positions(q as nat, overlaps_both(conect, lab@, li as int, lj as int)),
        decreases lab@.len() - q,
    {
        let l: usize = lab[q];
        proof {
            lemma_cells(conect.n as int, l as int, li as int, l as int, li as int);
            lemma_cells(conect.n as int, l as int, lj as int, l as int, lj as int);
        }
        if l != li && l != lj && conect.at(l, li) && conect.at(l, lj) {
            proof {
                lemma_ints_push(r@, q);
            }
            r.push(q);
        }
        q += 1;
    }
    r
}

/// Where a point of the sphere lies with respect to a segment.
#[derive(Clone, Copy, Debug, PartialEq, Eq, Structural)]
pub enum Side {
    Outside,
    Boundary,
    Inside,
}

/// Where a point at cosine `cosine` from the segment's axis lies; cosines between
/// `lower` and `upper` are on the boundary within the tolerance.
pub open spec fn side(cosine: Real, lower: Real, upper: Real) -> Side {
    if upper.below(cosine) {
        Side::Inside
    } else if lower.at_most(cosine) {
        Side::Boundary
    } else {
        Side::Outside
    }
}

/// Locates a point with respect to a segment.
pub fn side_of(cosine: Real, lower: Real, upper: Real) -> (s: Side)
    ensures
        s == side(cosine, lower, upper),
{
    if cosine.gt(upper) {
        Side::Inside
    } else if cosine.ge(lower) {
        Side::Boundary
    } else {
        Side::Outside
    }
}

/// The first entry from position `i` on that is not `Outside`, if there is one.
pub open spec fn contact_from(sides: Seq<Side>, i: int) -> Side
    decreases sides.len() - i,
{
    if i >= sides.len() {
        Side::Outside
    } else if sides[i] != Side::Outside {
        sides[i]
    } else {
        contact_from(sides, i + 1)
    }
}

/// Which of the two intersection points of a pair of segments lie on the
/// accessible boundary.
#[derive(Clone, Copy, Debug, PartialEq, Eq, Structural)]
pub enum Freedom {
    /// A point lies on a third boundary: the radius has to be perturbed.
    Degenerate,
    /// `ij` and `ji` tell whether the respective point is free.
    Points { ij: bool, ji: bool },
}

/// A point is free when no segment contains it; meeting a boundary first is degenerate.
pub open spec fn freedom(ji: Seq<Side>, ij: Seq<Side>) -> Freedom {
    if contact_from(ji, 0) == Side::Boundary || contact_from(ij, 0) == Side::Boundary {
        Freedom::Degenerate
    } else {
        Freedom::Points {
            ij: contact_from(ij, 0) == Side::Outside,
            ji: contact_from(ji, 0) == Side::Outside,
        }
    }
}

/// Tests both intersection points of a pair against the segments that overlap both:
/// the search ends early once both points are buried or one is degenerate.
pub fn free_points(ji: &Vec<Side>, ij: &Vec<Side>) -> (r: Freedom)
    requires
        ji@.len() == ij@.len(),
    ensures
        r == freedom(ji@, ij@),
{
    let mut free_ij: bool = true;
    let mut free_ji: bool = true;
    let mut l: usize = 0;
    while (free_ij || free_ji) && l < ji.len()
        invariant
            l <= ji@.len(),
            ji@.len() == ij@.len(),
            free_ji ==> contact_from(ji@, 0) == contact_from(ji@, l as int),
            free_ij ==> contact_from(ij@, 0) == contact_from(ij@, l as int),
            !free_ji ==> contact_from(ji@, 0) == Side::Inside,
            !free_ij ==> contact_from(ij@, 0) == Side::Inside,
        decreases ji@.len() - l,
    {
        if free_ji {
            match ji[l] {
                Side::Inside => {
                    free_ji = false;
                },
                Side::Boundary => {
                    return Freedom::Degenerate;
                },
                Side::Outside => {},
            }
        }
        if free_ij {
            match ij[l] {
                Side::Inside => {
                    free_ij = false;
                },
                Side::Boundary => {
                    return Freedom::Degenerate;
                },
                Side::Outside => {},
            }
        }
        l += 1;
    }
    Freedom::Points { ij: free_ij, ji: free_ji }
}

/// Two spheres see each other alike: they cut each other, or stay apart, from either side, and
/// where one lies inside the other, it does so from both; of two alike, each lies in the other.
pub proof fn law_overlap_mutual(rk: Real, ri: Real, reach: Real, clearance: Real, eps: Real)
    requires
        crate::binary64::zero().below(rk),
        crate::binary64::zero().below(ri),
    ensures
        ({
            let (a, b) = (
                overlap_of(rk, ri, reach, clearance, eps),
                overlap_of(ri, rk, reach, clearance, eps),
            );
            &&& a == Overlap::Partial <==> b == Overlap::Partial
            &&& a == Overlap::Apart <==> b == Overlap::Apart
            &&& a == Overlap::Engulfing ==> b == Overlap::Engulfed
            &&& rk.below(ri) && a == Overlap::Engulfed ==> b == Overlap::Engulfing
            &&& a == Overlap::Engulfing ==> ri.below(rk)
            &&& a == Overlap::Engulfed ==> rk.at_most(ri)
            &&& a != Overlap::Absent
        }),
{
}

/// A neighbour is absent exactly without extent. Otherwise the spheres are apart exactly when
/// their radii do not reach, one holds the other exactly when they reach without clearance, and
/// they cut each other exactly when they reach with it.
pub proof fn law_overlap(rk: Real, ri: Real, reach: Real, clearance: Real, eps: Real)
    ensures
        ({
            let o = overlap_of(rk, ri, reach, clearance, eps);
            let extent = !ri.at_most(crate::binary64::zero());
            &&& o == Overlap::Absent <==> !extent
            &&& o == Overlap::Apart <==> extent && reach.below(eps)
            &&& o == Overlap::Partial <==> extent && !reach.below(eps) && !clearance.below(eps)
            &&& o == Overlap::Engulfed <==> extent && !reach.below(eps) && clearance.below(eps)
                && rk.at_most(ri)
        }),
{
}

/// The cutting spheres are all others that overlap in part, each once, ascending; a sphere lies
/// inside another exactly when some other engulfs it. What stands in its own place has no say.
pub proof fn law_cutting(overlaps: Seq<Overlap>, k: int, own: Overlap, i: int)
    requires
        0 <= k < overlaps.len(),
    ensures
        cutting(overlaps, k).contains(i) <==> 0 <= i < overlaps.len() && i != k && overlaps[i]
            == Overlap::Partial,
        forall|a: int, b: int|
            0 <= a < b < cutting(overlaps, k).len() ==> #[trigger] cutting(overlaps, k)[a]
                < #[trigger] cutting(overlaps, k)[b],
        engulfed(overlaps.update(k, own), k) == engulfed(overlaps, k),
        0 <= i < overlaps.len() && i != k && overlaps[i] == Overlap::Engulfed ==> engulfed(
            overlaps,
            k,
        ),
        engulfed(overlaps, k) ==> overlaps.contains(Overlap::Engulfed),
{
    crate::sequences::law_positions(overlaps.len(), cuts(overlaps, k));
    assert(cutting(overlaps, k).contains(i) <==> 0 <= i < overlaps.len() && cuts(overlaps, k)(i));
    let other = overlaps.update(k, own);
    if engulfed(overlaps, k) {
        let x = choose|x: int|
            0 <= x < overlaps.len() && x != k && #[trigger] overlaps[x] == Overlap::Engulfed;
        assert(other[x] == Overlap::Engulfed);
    }
    if engulfed(other, k) {
        let x = choose|x: int|
            0 <= x < other.len() && x != k && #[trigger] other[x] == Overlap::Engulfed;
        assert(overlaps[x] == Overlap::Engulfed);
    }
}

/// Exchanging two segments exchanges which of them is hidden and changes nothing else, wherever
/// their angles differ.
pub proof fn law_relation_exchanged(g: PairGeometry)
    requires
        g.cos_first.below(g.cos_second) || g.cos_second.below(g.cos_first),
    ensures
        ({
            let h = PairGeometry { cos_first: g.cos_second, cos_second: g.cos_first, ..g };
            let (r, s) = (relation_of(g), relation_of(h));
            &&& r == Relation::HidesFirst <==> s == Relation::HidesSecond
            &&& r == Relation::HidesSecond <==> s == Relation::HidesFirst
            &&& r == Relation::Covers <==> s == Relation::Covers
            &&& r == Relation::Linked <==> s == Relation::Linked
        }),
{
}

/// One segment hides exactly when the excess exceeds the nesting bound, and then it is the
/// narrower one, with the larger cosine, the second of two alike. Otherwise, up to half angles
/// that sum to pi the boundaries cross exactly above the crossing bound and nothing covers the
/// sphere; beyond that they cross exactly above the covering bound and are never separate.
pub proof fn law_relation(g: PairGeometry)
    ensures
        ({
            let r = relation_of(g);
            let nested = g.nesting_bound.below(g.excess);
            let small = crate::binary64::zero().at_most(g.sine_sum);
            &&& r == Relation::HidesFirst || r == Relation::HidesSecond <==> nested
            &&& r == Relation::HidesFirst <==> nested && g.cos_second.below(g.cos_first)
            &&& r == Relation::Separate ==> small
            &&& r == Relation::Covers ==> !small
            &&& !nested && small ==> (r == Relation::Linked <==> g.crossing_bound.below(g.excess))
            &&& !nested && !small ==> (r == Relation::Covers <==> g.excess.at_most(
                g.covering_bound,
            ))
        }),
{
}

/// A segment is hidden by another one of these relations.
pub open spec fn hidden_by(relations: Seq<Relation>, a: int, b: int) -> bool {
    ||| a < b && relation_at(relations, b, a) == Relation::HidesFirst
    ||| b < a && relation_at(relations, a, b) == Relation::HidesSecond
}

/// Every hidden segment is hidden by one of the first `n`.
pub open spec fn hidden_rightly(relations: Seq<Relation>, cells: Set<(int, int)>, n: int) -> bool {
    forall|a: int| #[trigger]
        cells.contains((a, a)) ==> exists|b: int|
            0 <= b < n && #[trigger] hidden_by(relations, a, b)
}

proof fn lemma_hidden_kept(
    relations: Seq<Relation>,
    cells: Set<(int, int)>,
    more: Set<(int, int)>,
    n: int,
    x: int,
    y: int,
)
    requires
        hidden_rightly(relations, cells, n),
        0 <= y < n,
        hidden_by(relations, x, y),
        forall|a: int| #[trigger] more.contains((a, a)) ==> a == x || cells.contains((a, a)),
    ensures
        hidden_rightly(relations, more, n),
{
    assert forall|a: int| #[trigger] more.contains((a, a)) implies exists|b: int|
        0 <= b < n && #[trigger] hidden_by(relations, a, b) by {
        if a == x {
            assert(hidden_by(relations, a, y));
        } else {
            assert(cells.contains((a, a)));
        }
    }
}

proof fn lemma_row_hidden(relations: Seq<Relation>, cells: Set<(int, int)>, i: int, j: int, n: int)
    requires
        0 <= j <= i < n,
        hidden_rightly(relations, cells, n),
    ensures
        link_row(relations, cells, i, j) is Some ==> hidden_rightly(
            relations,
            link_row(relations, cells, i, j)->0,
            n,
        ),
        link_row(relations, cells, i, j) is None ==> exists|b: int|
            j <= b < i && #[trigger] relation_at(relations, i, b) == Relation::Covers,
    decreases i - j,
{
    if j < i {
        if cells.contains((j, j)) {
            lemma_row_hidden(relations, cells, i, j + 1, n);
        } else {
            match relation_at(relations, i, j) {
                Relation::HidesFirst => {
                    assert(hidden_by(relations, j, i));
                    lemma_hidden_kept(relations, cells, cells.insert((j, j)), n, j, i);
                    lemma_row_hidden(relations, cells.insert((j, j)), i, j + 1, n);
                },
                Relation::HidesSecond => {
                    assert(hidden_by(relations, i, j));
                    lemma_hidden_kept(relations, cells, cells.insert((i, i)), n, i, j);
                },
                Relation::Covers => {
                    assert(relation_at(relations, i, j) == Relation::Covers);
                },
                Relation::Linked => {
                    let more = cells.insert((j, i)).insert((i, j));
                    assert forall|a: int| #[trigger] more.contains((a, a)) implies exists|b: int|
                        0 <= b < n && #[trigger] hidden_by(relations, a, b) by {
                        assert(cells.contains((a, a)));
                    }
                    lemma_row_hidden(relations, more, i, j + 1, n);
                },
                Relation::Separate => {
                    lemma_row_hidden(relations, cells, i, j + 1, n);
                },
            }
        }
    }
}

proof fn lemma_rows_hidden(relations: Seq<Relation>, cells: Set<(int, int)>, i: int, n: int)
    requires
        0 <= i,
        hidden_rightly(relations, cells, n),
    ensures
        link_rows(relations, cells, i, n) is Some ==> hidden_rightly(
            relations,
            link_rows(relations, cells, i, n)->0,
            n,
        ),
        link_rows(relations, cells, i, n) is None ==> exists|a: int, b: int|
            0 <= b < a < n && #[trigger] relation_at(relations, a, b) == Relation::Covers,
    decreases n - i,
{
    if i < n {
        lemma_row_hidden(relations, cells, i, 0, n);
        if link_row(relations, cells, i, 0) is Some {
            lemma_rows_hidden(relations, link_row(relations, cells, i, 0)->0, i + 1, n);
        } else {
            let b = choose|b: int|
                0 <= b < i && #[trigger] relation_at(relations, i, b) == Relation::Covers;
            assert(relation_at(relations, i, b) == Relation::Covers);
        }
    }
}

/// No segment is hidden without another one that hides it, and the sphere is not taken for
/// covered without two segments that cover it.
pub proof fn law_links_have_reasons(relations: Seq<Relation>, n: int, a: int)
    requires
        1 <= n,
    ensures
        links(relations, n) is None ==> exists|x: int, y: int|
            0 <= y < x < n && #[trigger] relation_at(relations, x, y) == Relation::Covers,
        links(relations, n) matches Some(cells) ==> (cells.contains((a, a)) ==> exists|b: int|
            0 <= b < n && #[trigger] hidden_by(relations, a, b)),
{
    let none = Set::<(int, int)>::empty();
    lemma_rows_hidden(relations, none, 1, n);
}

/// A visible segment belongs to the cluster exactly when it overlaps another visible one, and is
/// isolated exactly when it overlaps none; a hidden one is neither.
pub proof fn law_split(conect: &MatrixBool, i: int)
    ensures
        conect.cluster()(i) <==> !conect.cell(i, i) && exists|j: int|
            0 <= j < conect.n && !#[trigger] conect.cell(j, j) && conect.cell(j, i),
        conect.isolated()(i) <==> !conect.cell(i, i) && forall|j: int|
            0 <= j < conect.n && !#[trigger] conect.cell(j, j) ==> !conect.cell(j, i),
        !(conect.cluster()(i) && conect.isolated()(i)),
        conect.cell(i, i) ==> !conect.cluster()(i) && !conect.isolated()(i),
{
    if conect.clustered(i) {
        let j = choose|j: int|
            0 <= j < conect.n && !#[trigger] conect.hidden(j) && conect.cell(j, i);
        assert(!conect.cell(j, j) && conect.cell(j, i));
    }
    if exists|j: int| 0 <= j < conect.n && !#[trigger] conect.cell(j, j) && conect.cell(j, i) {
        let j = choose|j: int|
            0 <= j < conect.n && !#[trigger] conect.cell(j, j) && conect.cell(j, i);
        assert(!conect.hidden(j));
    }
}

/// The segments that overlap both of a pair are found by their cells, whichever of the two is
/// named first, and neither of the two is among them.
pub proof fn law_overlaps_both(conect: &MatrixBool, lab: Seq<usize>, li: int, lj: int, q: int)
    ensures
        overlaps_both(conect, lab, li, lj)(q) == overlaps_both(conect, lab, lj, li)(q),
        overlaps_both(conect, lab, li, lj)(q) <==> {
            &&& lab[q] != li && lab[q] != lj
            &&& conect.cell(lab[q] as int, li)
            &&& conect.cell(lab[q] as int, lj)
        },
{
}

/// A point lies the further inside the larger its cosine: strictly above the upper bound it is
/// inside, strictly below the lower one outside, and on the bounds and between them on the
/// boundary.
pub proof fn law_side(cosine: Real, lower: Real, upper: Real)
    requires
        !cosine.nan(),
        lower.at_most(upper),
    ensures
        side(cosine, lower, upper) == Side::Inside <==> upper.below(cosine),
        side(cosine, lower, upper) == Side::Outside <==> cosine.below(lower),
        side(lower, lower, upper) == Side::Boundary,
        side(upper, lower, upper) == Side::Boundary,
{
}

proof fn lemma_contact(sides: Seq<Side>, i: int)
    requires
        0 <= i <= sides.len(),
    ensures
        contact_from(sides, i) == Side::Outside <==> forall|k: int|
            i <= k < sides.len() ==> #[trigger] sides[k] == Side::Outside,
        contact_from(sides, i) != Side::Outside ==> exists|k: int|
            i <= k < sides.len() && #[trigger] sides[k] == contact_from(sides, i) && forall|x: int|
                i <= x < k ==> #[trigger] sides[x] == Side::Outside,
    decreases sides.len() - i,
{
    if i < sides.len() {
        if sides[i] != Side::Outside {
            assert(sides[i] == contact_from(sides, i));
        } else {
            lemma_contact(sides, i + 1);
            if contact_from(sides, i) != Side::Outside {
                let k = choose|k: int|
                    i + 1 <= k < sides.len() && #[trigger] sides[k] == contact_from(sides, i + 1)
                        && forall|x: int| i + 1 <= x < k ==> #[trigger] sides[x] == Side::Outside;
                assert(sides[k] == contact_from(sides, i));
            }
        }
    }
}

/// A point is free exactly when it lies outside of every segment. A pair is degenerate exactly
/// when one of its points meets a boundary before it meets the inside of a segment.
pub proof fn law_freedom(ji: Seq<Side>, ij: Seq<Side>)
    ensures
        freedom(ji, ij) matches Freedom::Points { ij: a, ji: b } ==> {
            &&& a <==> forall|k: int| 0 <= k < ij.len() ==> #[trigger] ij[k] == Side::Outside
            &&& b <==> forall|k: int| 0 <= k < ji.len() ==> #[trigger] ji[k] == Side::Outside
        },
        freedom(ji, ij) == Freedom::Degenerate <==> meets_boundary(ji) || meets_boundary(ij),
{
    lemma_contact(ji, 0);
    lemma_contact(ij, 0);
    lemma_meets(ji);
    lemma_meets(ij);
}

/// A boundary comes before every inside.
pub open spec fn meets_boundary(sides: Seq<Side>) -> bool {
    exists|k: int|
        0 <= k < sides.len() && #[trigger] sides[k] == Side::Boundary && forall|x: int|
            0 <= x < k ==> #[trigger] sides[x] != Side::Inside
}

proof fn lemma_meets(sides: Seq<Side>)
    ensures
        contact_from(sides, 0) == Side::Boundary <==> meets_boundary(sides),
{
    lemma_contact(sides, 0);
    if contact_from(sides, 0) == Side::Boundary {
        let k = choose|k: int|
            0 <= k < sides.len() && #[trigger] sides[k] == contact_from(sides, 0) && forall|x: int|
                0 <= x < k ==> #[trigger] sides[x] == Side::Outside;
        assert(sides[k] == Side::Boundary);
    }
    if meets_boundary(sides) {
        let k = choose|k: int|
            0 <= k < sides.len() && #[trigger] sides[k] == Side::Boundary && forall|x: int|
                0 <= x < k ==> #[trigger] sides[x] != Side::Inside;
        assert(contact_from(sides, 0) != Side::Outside);
        let m = choose|m: int|
            0 <= m < sides.len() && #[trigger] sides[m] == contact_from(sides, 0) && forall|x: int|
                0 <= x < m ==> #[trigger] sides[x] == Side::Outside;
        assert(m <= k);
        if m < k {
            assert(sides[m] != Side::Inside);
        }
    }
}

/// Relations are listed pair by pair in the order of packed storage: the relation of two segments
/// stands where the pair of the lower one and of the one below the higher stands.
pub proof fn law_relation_at(relations: Seq<Relation>, i: int, j: int)
    requires
        0 <= j < i,
    ensures
        relation_at(relations, i, j) == relations[crate::packed::pair_index(i - 1, j)],
{
    let k = i - 1;
    assert(crate::packed::pair_index(k, j) == triangle(k) + j);
    reveal(relation_at);
}

} // verus!
