//! The accessible area of one sphere, stage by stage: what the comparisons made so far
//! decide, and what has to be computed next.

use crate::binary64::{zero, Real};
use crate::sequences::{ints, positions};
use crate::solvent::polygons::{
    ascending_labels, column, drop_signs, free_table, free_upto, law_sorted_order, rotate_entries,
    some_degenerate, sort_dihedrals, sorted_order, views, FreeTable,
};
use crate::solvent::segments::{
    connect_segments, cutting, cutting_spheres, engulfed, holds_flags, links, split_segments,
    Freedom, MatrixBool, Overlap, Relation,
};
use crate::packed::triangle;
use crate::solvent::walk::walkable;
use vstd::prelude::*;

verus! {

/// The pattern of 1e-11, the relative size of gaps and overlaps that do not count.
pub const OVERLAP_TOLERANCE: u64 = 0x3da5_fd7f_e179_6495;

/// By how many tolerances a sphere grows before it is looked at again.
pub const RESTART_GROWTH: u32 = 4;

/// The pattern of 1e-30, up to which the squared length behind an angle has no derivative.
pub const ANGLE_FLOOR: u64 = 0x39b4_484b_feeb_c2a0;

/// The pattern of 1e-15, up to which the sine of a vertex angle has no derivative.
pub const SINE_FLOOR: u64 = 0x3cd2_03af_9ee7_5616;

/// Whether the points in which two boundaries cross lie apart.
pub open spec fn apart(square: Real) -> bool {
    zero().below(square)
}

/// Whether the first arc of a boundary bounds the accessible polygon.
pub open spec fn accessible_first(projection: Real) -> bool {
    zero().below(projection)
}

/// Whether a full turn is added to an angle.
pub open spec fn wraps(angle: Real) -> bool {
    angle.at_most(zero())
}

/// Whether an angle along a boundary has a derivative.
pub open spec fn angle_slope(squared_length: Real) -> bool {
    (Real { bits: ANGLE_FLOOR }).below(squared_length)
}

/// Whether a vertex angle has a derivative.
pub open spec fn sine_slope(sine: Real) -> bool {
    (Real { bits: SINE_FLOOR }).below(Real { bits: sine.magnitude() as u64 })
}

/// Whether the points in which two boundaries cross lie apart, given the square of half their
/// distance.
pub fn points_apart(square: Real) -> (b: bool)
    ensures
        b == apart(square),
{
    square.gt(Real { bits: 0 })
}

/// Whether the first arc of a boundary, and every other one after it, bounds the accessible
/// polygon, given the projection on the neighbour's axis of the direction in which the boundary
/// leaves its first point. Otherwise the arcs between them do.
pub fn first_arc_accessible(projection: Real) -> (b: bool)
    ensures
        b == accessible_first(projection),
{
    projection.gt(Real { bits: 0 })
}

/// Whether a full turn is added to an angle along a boundary: angles count from above zero.
pub fn turns_over(angle: Real) -> (b: bool)
    ensures
        b == wraps(angle),
{
    angle.le(Real { bits: 0 })
}

/// Whether an angle along a boundary has a derivative, given the squared length behind it.
pub fn angle_has_slope(squared_length: Real) -> (b: bool)
    ensures
        b == angle_slope(squared_length),
{
    squared_length.gt(Real { bits: ANGLE_FLOOR })
}

/// Whether a vertex angle has a derivative, given its sine.
pub fn vertex_has_slope(sine: Real) -> (b: bool)
    ensures
        b == sine_slope(sine),
{
    sine.abs().gt(Real { bits: SINE_FLOOR })
}

/// What the neighbouring spheres make of a sphere.
pub enum SphereStage {
    /// The sphere has no extent or lies inside another: no area.
    Buried,
    /// No other sphere cuts it: its whole area is accessible.
    Whole,
    /// The spheres that cut it.
    Cut(Vec<usize>),
}

/// Whether sphere `k` of radius `rk` has no area.
pub open spec fn buried(rk: Real, overlaps: Seq<Overlap>, k: int) -> bool {
    rk.at_most(zero()) || engulfed(overlaps, k)
}

/// Looks at the spheres around sphere `k` of radius `rk`.
pub fn begin_sphere(k: usize, rk: Real, overlaps: &Vec<Overlap>) -> (r: SphereStage)
    ensures
        r is Buried <==> buried(rk, overlaps@, k as int),
        r is Whole <==> !buried(rk, overlaps@, k as int) && cutting(overlaps@, k as int).len() == 0,
        r matches SphereStage::Cut(v) ==> v@.len() > 0 && ints(v@) == cutting(
            overlaps@,
            k as int,
        ),
{
    if rk.le(Real { bits: 0 }) {
        return SphereStage::Buried;
    }
    match cutting_spheres(k, overlaps) {
        None => SphereStage::Buried,
        Some(v) => {
            assert(ints(v@).len() == v@.len());
            if v.len() == 0 {
                SphereStage::Whole
            } else {
                SphereStage::Cut(v)
            }
        },
    }
}

/// What the segments on a sphere make of it.
pub enum SegmentStage {
    /// Two segments cover the sphere: no area.
    Covered,
    /// The visible segments do not overlap each other: each takes its own area away.
    Isolated { alone: Vec<usize> },
    /// Some visible segments overlap.
    Clustered { conect: MatrixBool, cluster: Vec<usize>, alone: Vec<usize> },
}

/// The connectivity of the segments, for relations that do not cover the sphere.
pub open spec fn connectivity(conect: &MatrixBool, relations: Seq<Relation>, n: int) -> bool {
    &&& conect.wf()
    &&& conect.n == n
    &&& holds_flags(conect, links(relations, n)->0)
}

/// Compares the `n` segments on a sphere pair by pair.
pub fn compare_segments(n: usize, relations: &Vec<Relation>) -> (r: SegmentStage)
    requires
        n >= 1,
        n * n <= usize::MAX,
        relations@.len() == triangle(n - 1),
    ensures
        r is Covered <==> links(relations@, n as int) is None,
        r matches SegmentStage::Isolated { alone } ==> exists|conect: MatrixBool|
            #[trigger] connectivity(&conect, relations@, n as int) && positions(
                n as nat,
                conect.cluster(),
            ).len() == 0 && ints(alone@) == positions(n as nat, conect.isolated()),
        r matches SegmentStage::Clustered { conect, cluster, alone } ==> {
            &&& connectivity(&conect, relations@, n as int)
            &&& cluster@.len() > 0
            &&& ints(cluster@) == positions(n as nat, conect.cluster())
            &&& ints(alone@) == positions(n as nat, conect.isolated())
        },
{
    match connect_segments(n, relations) {
        None => SegmentStage::Covered,
        Some(conect) => {
            let (cluster, alone) = split_segments(&conect);
            assert(ints(cluster@).len() == cluster@.len());
            assert(connectivity(&conect, relations@, n as int));
            if cluster.len() == 0 {
                SegmentStage::Isolated { alone }
            } else {
                SegmentStage::Clustered { conect, cluster, alone }
            }
        },
    }
}

/// What the intersection points of clustered segments make of a sphere.
pub enum PointStage {
    /// A point lies on a third boundary: enlarge the sphere a little and start again.
    Restart,
    /// Every point is buried, and so is the sphere: no area.
    Buried,
    /// The free points of each segment.
    Bounded(FreeTable),
}

/// The table holds the free points of every clustered segment.
pub open spec fn holds_points(
    t: &FreeTable,
    conect: &MatrixBool,
    cluster: Seq<usize>,
    freedoms: Seq<Freedom>,
) -> bool {
    &&& t.columns@.len() == conect.n
    &&& forall|p: int|
        0 <= p < cluster.len() ==> views(t.columns@)[#[trigger] cluster[p] as int] == column(
            conect,
            cluster,
            freedoms,
            p,
            cluster.len() as int,
        )
    &&& forall|s: int|
        0 <= s < conect.n && (forall|p: int| 0 <= p < cluster.len() ==> #[trigger] cluster[p] != s)
            ==> #[trigger] views(t.columns@)[s] == Seq::<isize>::empty()
    &&& t.free == free_upto(conect, cluster, freedoms, cluster.len() as int, 0)
}

/// Collects the free intersection points of clustered segments.
pub fn collect_points(conect: &MatrixBool, cluster: &Vec<usize>, freedoms: &Vec<Freedom>) -> (r:
    PointStage)
    requires
        conect.wf(),
        conect.n < isize::MAX,
        ascending_labels(cluster@, conect.n as int),
        freedoms@.len() == triangle(cluster@.len() - 1),
    ensures
        r is Restart <==> some_degenerate(conect, cluster@, freedoms@),
        r is Buried <==> !some_degenerate(conect, cluster@, freedoms@) && free_upto(
            conect,
            cluster@,
            freedoms@,
            cluster@.len() as int,
            0,
        ) == 0,
        r matches PointStage::Bounded(t) ==> t.free > 0 && holds_points(
            &t,
            conect,
            cluster@,
            freedoms@,
        ),
{
    match free_table(conect, cluster, freedoms) {
        None => PointStage::Restart,
        Some(t) => {
            if t.free == 0 {
                PointStage::Buried
            } else {
                PointStage::Bounded(t)
            }
        },
    }
}

/// The entries of a boundary with their signs dropped.
pub open spec fn unsigned(entries: Seq<isize>) -> Seq<isize> {
    entries.map_values(
        |e: isize|
            if e < 0 {
                (-e) as isize
            } else {
                e
            },
    )
}

/// The entries of a boundary in the order of their angles, the first one staying in front.
pub open spec fn by_angle(entries: Seq<isize>, angles: Seq<Real>) -> Seq<isize> {
    Seq::new(
        entries.len(),
        |i: int|
            if i == 0 {
                entries[0]
            } else {
                entries[sorted_order(angles)[i - 1] + 1]
            },
    )
}

/// The entries turned by one.
pub open spec fn turned(entries: Seq<isize>) -> Seq<isize> {
    entries.subrange(1, entries.len() as int).push(entries[0])
}

/// The entries as a boundary is left: turned unless the polygon lies between the first two.
pub open spec fn left_boundary(labels: Seq<isize>, polygon_first: bool) -> Seq<isize> {
    if polygon_first {
        labels
    } else {
        turned(labels)
    }
}

/// A boundary whose free points have been ordered.
pub struct OrderedBoundary {
    /// Where each angle came from.
    pub order: Vec<usize>,
    /// The entries in the order of their angles, the first one in front.
    pub labels: Vec<isize>,
}

/// Orders the free points along one boundary: signs are dropped, and the points behind the
/// first are sorted by their dihedral angle. Unless the polygon lies between the first two,
/// the boundary is left turned by one, so that polygon vertices come at odd ranks.
pub fn order_boundary(entries: &mut Vec<isize>, angles: &mut Vec<Real>, polygon_first: bool) -> (r:
    OrderedBoundary)
    requires
        old(entries)@.len() == old(angles)@.len() + 1,
        forall|k: int| 0 <= k < old(entries)@.len() ==> #[trigger] old(entries)@[k] != isize::MIN,
    ensures
        r.order@.len() == old(angles)@.len(),
        ints(r.order@) == sorted_order(old(angles)@),
        final(angles)@.len() == old(angles)@.len(),
        forall|i: int|
            0 <= i < old(angles)@.len() ==> #[trigger] final(angles)@[i] == old(
                angles,
            )@[r.order@[i] as int],
        r.labels@ == by_angle(unsigned(old(entries)@), old(angles)@),
        final(entries)@ == left_boundary(r.labels@, polygon_first),
{
    let ghost start = entries@;
    let ghost values = angles@;
    drop_signs(entries);
    let ghost positive = entries@;
    assert(positive == unsigned(start));
    let order: Vec<usize> = sort_dihedrals(angles, entries);
    proof {
        law_sorted_order(values);
        assert(ints(order@).len() == order@.len());
        let sorted = by_angle(positive, values);
        assert forall|i: int| 0 <= i < entries@.len() implies #[trigger] entries@[i] == sorted[i] by {
            if i > 0 {
                assert(entries@[(i - 1) + 1] == positive[order@[i - 1] + 1]);
                assert(ints(order@)[i - 1] == order@[i - 1]);
            }
        }
        assert(entries@ =~= sorted);
    }
    let mut labels: Vec<isize> = Vec::new();
    let mut k: usize = 0;
    while k < entries.len()
        invariant
            k <= entries@.len(),
            labels@ =~= entries@.take(k as int),
        decreases entries@.len() - k,
    {
        labels.push(entries[k]);
        k += 1;
    }
    assert(labels@ =~= entries@);
    if !polygon_first {
        rotate_entries(entries);
    }
    OrderedBoundary { order, labels }
}

/// Every entry names one of `n` segments, with either sign.
pub open spec fn names_segments(entries: Seq<isize>, n: int) -> bool {
    forall|k: int|
        0 <= k < entries.len() ==> (1 <= #[trigger] entries[k] <= n || -n <= entries[k] <= -1)
}

/// Every entry names one of `n` segments, without sign.
pub open spec fn positive_names(entries: Seq<isize>, n: int) -> bool {
    forall|k: int| 0 <= k < entries.len() ==> 1 <= #[trigger] entries[k] <= n
}

/// Ordering a boundary leaves entries that name segments without sign.
pub proof fn law_ordered_names(entries: Seq<isize>, angles: Seq<Real>, n: int)
    requires
        entries.len() == angles.len() + 1,
        0 <= n < isize::MAX,
        names_segments(entries, n),
    ensures
        positive_names(by_angle(unsigned(entries), angles), n),
        positive_names(turned(by_angle(unsigned(entries), angles)), n),
{
    law_sorted_order(angles);
    let sorted = by_angle(unsigned(entries), angles);
    assert forall|k: int| 0 <= k < sorted.len() implies 1 <= #[trigger] sorted[k] <= n by {
        if k == 0 {
            assert(1 <= entries[0] <= n || -n <= entries[0] <= -1);
        } else {
            let e = entries[sorted_order(angles)[k - 1] + 1];
            assert(1 <= e <= n || -n <= e <= -1);
        }
    }
    let t = turned(sorted);
    assert forall|k: int| 0 <= k < t.len() implies 1 <= #[trigger] t[k] <= n by {
        if k < t.len() - 1 {
            assert(t[k] == sorted[k + 1]);
        } else {
            assert(t[k] == sorted[0]);
        }
    }
}

/// Once every boundary is ordered the table can be walked.
pub proof fn law_ordered_walkable(cols: Seq<Seq<isize>>)
    requires
        forall|s: int| 0 <= s < cols.len() ==> positive_names(#[trigger] cols[s], cols.len() as int),
    ensures
        walkable(cols),
{
    assert forall|s: int, m: int| 0 <= s < cols.len() && 0 <= m < cols[s].len() implies {
        &&& 0 <= #[trigger] cols[s][m] <= cols.len()
        &&& m % 2 == 0 ==> cols[s][m] >= 1
    } by {
        assert(positive_names(cols[s], cols.len() as int));
    }
}

/// Whether a table can be walked.
pub fn is_walkable(columns: &Vec<Vec<isize>>) -> (b: bool)
    requires
        columns@.len() <= isize::MAX,
    ensures
        b == walkable(views(columns@)),
{
    let n: usize = columns.len();
    let ghost cols = views(columns@);
    let mut s: usize = 0;
    while s < n
        invariant
            s <= n,
            n == columns@.len(),
            n <= isize::MAX,
            cols == views(columns@),
            forall|t: int, m: int|
                0 <= t < s && 0 <= m < cols[t].len() ==> {
                    &&& 0 <= #[trigger] cols[t][m] <= n
                    &&& m % 2 == 0 ==> cols[t][m] >= 1
                },
        decreases n - s,
    {
        assert(cols[s as int] == columns@[s as int]@);
        let mut m: usize = 0;
        while m < columns[s].len()
            invariant
                s < n,
                n == columns@.len(),
                n <= isize::MAX,
                cols == views(columns@),
                cols[s as int] == columns@[s as int]@,
                m <= columns@[s as int]@.len(),
                forall|x: int|
                    0 <= x < m ==> {
                        &&& 0 <= #[trigger] cols[s as int][x] <= n
                        &&& x % 2 == 0 ==> cols[s as int][x] >= 1
                    },
            decreases columns@[s as int]@.len() - m,
        {
            let e: isize = columns[s][m];
            if e < 0 || e > n as isize || (m % 2 == 0 && e == 0) {
                assert(cols[s as int][m as int] == e);
                return false;
            }
            m += 1;
        }
        s += 1;
    }
    true
}

/// What decides by its sign: points are apart at a positive square, the first arc is accessible at
/// a positive projection, and an angle that is not positive turns over. Zero of either sign counts
/// as not positive.
pub proof fn law_signs(x: Real)
    ensures
        apart(x) <==> 0 < x.bits <= 0x7ff0_0000_0000_0000,
        accessible_first(x) <==> 0 < x.bits <= 0x7ff0_0000_0000_0000,
        !x.nan() ==> (wraps(x) <==> !apart(x)),
        x.nan() ==> !wraps(x),
{
}

/// An angle has a derivative exactly above a squared length of 1e-30, a vertex angle exactly above
/// a sine of 1e-15 in size.
pub proof fn law_slopes(x: Real)
    ensures
        angle_slope(x) <==> 0x39b4_484b_feeb_c2a0 < x.bits <= 0x7ff0_0000_0000_0000,
        sine_slope(x) <==> 0x3cd2_03af_9ee7_5616 < x.magnitude() <= 0x7ff0_0000_0000_0000,
{
}

/// Dropping signs keeps the size of every entry.
pub proof fn law_unsigned(entries: Seq<isize>, k: int)
    requires
        0 <= k < entries.len(),
        entries[k] != isize::MIN,
    ensures
        unsigned(entries).len() == entries.len(),
        unsigned(entries)[k] >= 0,
        unsigned(entries)[k] == entries[k] || unsigned(entries)[k] == -entries[k],
{
}

/// The first entry stays in front, and the others follow by ascending angle, each once.
pub proof fn law_by_angle(entries: Seq<isize>, angles: Seq<Real>)
    requires
        entries.len() == angles.len() + 1,
        forall|x: int| 0 <= x < angles.len() ==> !(#[trigger] angles[x]).nan(),
    ensures
        by_angle(entries, angles).len() == entries.len(),
        by_angle(entries, angles)[0] == entries[0],
        exists|order: Seq<int>|
            {
                &&& #[trigger] crate::solvent::polygons::is_order(order, angles.len() as int)
                &&& forall|i: int|
                    0 <= i < angles.len() ==> by_angle(entries, angles)[i + 1] == entries[
                    #[trigger] order[i] + 1]
                &&& forall|i: int, j: int|
                    0 <= i < j < angles.len() ==> angles[#[trigger] order[i]].at_most(
                        angles[#[trigger] order[j]],
                    )
            },
{
    law_sorted_order(angles);
    let order = sorted_order(angles);
    assert(crate::solvent::polygons::is_order(order, angles.len() as int));
}

/// A boundary is left as it is exactly when the polygon lies between its first two entries;
/// otherwise every entry moves up by one and the first one goes to the end.
pub proof fn law_left_boundary(labels: Seq<isize>, i: int)
    requires
        labels.len() > 0,
        0 <= i < labels.len(),
    ensures
        left_boundary(labels, true) == labels,
        left_boundary(labels, false).len() == labels.len(),
        left_boundary(labels, false)[i] == labels[(i + 1) % labels.len() as int],
{
    if i < labels.len() - 1 {
        assert((i + 1) % labels.len() as int == i + 1) by (nonlinear_arith)
            requires
                0 <= i + 1 < labels.len(),
        ;
    } else {
        vstd::arithmetic::div_mod::lemma_mod_self_0(labels.len() as int);
    }
}

/// Gaps and overlaps do not count below 1e-11 of a radius, and a sphere that has to be looked at
/// again grows by four times that.
pub proof fn law_tolerance()
    ensures
        OVERLAP_TOLERANCE == 0x3da5_fd7f_e179_6495,
        RESTART_GROWTH == 4,
{
}

/// A sphere without a positive radius has no area, whatever is around it, nor has one inside
/// another; every other sphere has some.
pub proof fn law_buried(rk: Real, overlaps: Seq<Overlap>, k: int)
    ensures
        buried(zero(), overlaps, k),
        rk.at_most(zero()) ==> buried(rk, overlaps, k),
        engulfed(overlaps, k) ==> buried(rk, overlaps, k),
        zero().below(rk) && !engulfed(overlaps, k) ==> !buried(rk, overlaps, k),
{
}

} // verus!
