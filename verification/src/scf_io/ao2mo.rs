//! Transformation of three-centre integrals from basis functions to orbitals: which kernel
//! is used, and the shapes it is asked for.

use core::ops::Range;
use vstd::prelude::*;

verus! {

/// The multiplier of the generator.
pub const LCG_MULTIPLIER: u64 = 6364136223846793005;

/// The increment of the generator.
pub const LCG_INCREMENT: u64 = 1442695040888963407;

/// The number of generator states.
pub open spec fn lcg_states() -> int {
    0x1_0000_0000_0000_0000
}

/// The state of a generator with the given seed.
pub open spec fn lcg_seeded(seed: int) -> int {
    (seed * LCG_MULTIPLIER + 1) % lcg_states()
}

/// The state of a generator after the given one.
pub open spec fn lcg_next(state: int) -> int {
    (state * LCG_MULTIPLIER + LCG_INCREMENT) % lcg_states()
}

proof fn lemma_mod_step(product: int, step: int)
    ensures
        (product % lcg_states() + step) % lcg_states() == (product + step) % lcg_states(),
{
}

/// Linear congruential generator of reproducible test data.
#[derive(Clone, Copy, Debug, PartialEq, Eq, Structural)]
pub struct Lcg(pub u64);

impl Lcg {
    /// A generator for the given seed.
    pub fn new(seed: u64) -> (g: Lcg)
        ensures
            g.0 == lcg_seeded(seed as int),
    {
        let p: u64 = seed.wrapping_mul(LCG_MULTIPLIER);
        proof {
            let product = seed as int * LCG_MULTIPLIER as int;
            assert(p == product % lcg_states());
            lemma_mod_step(product, 1);
        }
        Lcg(p.wrapping_add(1))
    }

    /// The next number below two to the power of 53.
    pub fn next_bits(&mut self) -> (x: u64)
        ensures
            final(self).0 == lcg_next(old(self).0 as int),
            x == final(self).0 / 2048,
            x < 0x20_0000_0000_0000,
    {
        let p: u64 = self.0.wrapping_mul(LCG_MULTIPLIER);
        proof {
            let product = self.0 as int * LCG_MULTIPLIER as int;
            assert(p == product % lcg_states());
            lemma_mod_step(product, LCG_INCREMENT as int);
        }
        self.0 = p.wrapping_add(LCG_INCREMENT);
        self.0 / 2048
    }
}

/// The shape of one transformation.
pub struct Case {
    pub label: &'static str,
    pub row: Range<usize>,
    pub col: Range<usize>,
}

impl Case {
    /// The case has the given label and ranges.
    pub open spec fn is(
        &self,
        label: &str,
        row: (int, int),
        col: (int, int),
    ) -> bool {
        &&& self.label@ == label@
        &&& (self.row.start as int, self.row.end as int) == row
        &&& (self.col.start as int, self.col.end as int) == col
    }
}

/// The rows of shape `i`.
pub open spec fn case_rows(n: int, i: int) -> (int, int) {
    if i == 0 || i == 3 {
        (n / 5, n)
    } else if i == 1 || i == 2 {
        (0, n / 5)
    } else if i == 4 {
        (0, n)
    } else if i == 5 || n < 8 {
        (0, 1)
    } else {
        (0, n / 8)
    }
}

/// The columns of shape `i`.
pub open spec fn case_columns(n: int, i: int) -> (int, int) {
    if i == 0 || i == 1 {
        (0, n / 5)
    } else if i == 2 || i == 3 {
        (n / 5, n)
    } else {
        (0, n)
    }
}

/// The shapes that the consumers of the transformation ask for, with `nao` basis functions
/// of which a fifth are occupied orbitals.
pub fn cases(nao: usize) -> (r: Vec<Case>)
    ensures
        ({
            let n = nao as int;
            let nocc = n / 5;
            let block = if n / 8 >= 1 { n / 8 } else { 1 };
            &&& r@.len() == 7
            &&& r@[0].is("PT2/RPA (vir, occ)", (nocc, n), (0, nocc))
            &&& r@[1].is("TDDFT/BSE OO (occ, occ)", (0, nocc), (0, nocc))
            &&& r@[2].is("TDDFT/BSE OV (occ, vir)", (0, nocc), (nocc, n))
            &&& r@[3].is("TDDFT/BSE VV (vir, vir)", (nocc, n), (nocc, n))
            &&& r@[4].is("FF (all, all)", (0, n), (0, n))
            &&& r@[5].is("GW per-row (1, all)", (0, 1), (0, n))
            &&& r@[6].is("GW block (nao/8, all)", (0, block), (0, n))
        }),
        forall|i: int|
            0 <= i < 7 ==> ((#[trigger] r@[i]).row.start as int, r@[i].row.end as int) == case_rows(
                nao as int,
                i,
            ) && (r@[i].col.start as int, r@[i].col.end as int) == case_columns(nao as int, i),
{
    let nocc: usize = nao / 5;
    let block: usize = if nao / 8 >= 1 {
        nao / 8
    } else {
        1
    };
    let mut r: Vec<Case> = Vec::new();
    r.push(Case { label: "PT2/RPA (vir, occ)", row: nocc..nao, col: 0..nocc });
    r.push(Case { label: "TDDFT/BSE OO (occ, occ)", row: 0..nocc, col: 0..nocc });
    r.push(Case { label: "TDDFT/BSE OV (occ, vir)", row: 0..nocc, col: nocc..nao });
    r.push(Case { label: "TDDFT/BSE VV (vir, vir)", row: nocc..nao, col: nocc..nao });
    r.push(Case { label: "FF (all, all)", row: 0..nao, col: 0..nao });
    r.push(Case { label: "GW per-row (1, all)", row: 0..1, col: 0..nao });
    r.push(Case { label: "GW block (nao/8, all)", row: 0..block, col: 0..nao });
    r
}

/// Kernels of the transformation.
#[derive(Clone, Copy, Debug, PartialEq, Eq, Structural)]
pub enum Ao2moKernel {
    /// Contracts all orbitals first; reads orbitals in any layout.
    V02,
    /// Contracts the block of columns first.
    M1,
    /// Contracts the block of rows first.
    M2,
}

/// The number of indices in a range.
pub open spec fn range_len(start: int, end: int) -> int {
    if start <= end {
        end - start
    } else {
        0
    }
}

/// The kernel for a shape: the narrower side is contracted first, and orbitals that are not
/// stored contiguously go to the kernel that reads any layout.
pub open spec fn ao2mo_kernel(rows: int, columns: int, contiguous: bool) -> Ao2moKernel {
    if !contiguous {
        Ao2moKernel::V02
    } else if rows < columns {
        Ao2moKernel::M2
    } else {
        Ao2moKernel::M1
    }
}

/// The number of indices in a range.
fn range_length(r: &Range<usize>) -> (n: usize)
    ensures
        n == range_len(r.start as int, r.end as int),
{
    if r.start <= r.end {
        r.end - r.start
    } else {
        0
    }
}

/// Selects the kernel for the given rows and columns.
pub fn ao2mo_rayon(row: &Range<usize>, column: &Range<usize>, contiguous: bool) -> (k: Ao2moKernel)
    ensures
        k == ao2mo_kernel(
            range_len(row.start as int, row.end as int),
            range_len(column.start as int, column.end as int),
            contiguous,
        ),
{
    if !contiguous {
        Ao2moKernel::V02
    } else if range_length(row) < range_length(column) {
        Ao2moKernel::M2
    } else {
        Ao2moKernel::M1
    }
}

/// The side contracted first is never the wider one.
pub proof fn law_narrow_side_first(rows: int, columns: int)
    ensures
        ao2mo_kernel(rows, columns, true) == Ao2moKernel::M2 ==> rows <= columns,
        ao2mo_kernel(rows, columns, true) == Ao2moKernel::M1 ==> columns <= rows,
        ao2mo_kernel(rows, columns, true) != Ao2moKernel::V02,
{
}

/// Copies a block of columns out of a matrix stored by columns of `num_basis` entries.
pub fn column_block<T: Copy>(matrix: &Vec<T>, num_basis: usize, columns: &Range<usize>) -> (r: Vec<
    T,
>)
    requires
        columns.start <= columns.end,
        columns.end * num_basis <= matrix@.len(),
    ensures
        r@ == matrix@.subrange(columns.start * num_basis, columns.end * num_basis),
{
    let mut r: Vec<T> = Vec::new();
    let ghost base = columns.start * num_basis;
    let mut j: usize = columns.start;
    proof {
        assert(0 <= base <= columns.end * num_basis) by (nonlinear_arith)
            requires
                base == columns.start * num_basis,
                0 <= columns.start <= columns.end,
                0 <= num_basis,
        ;
        assert(matrix.len() == matrix@.len());
    }
    assert(r@ =~= matrix@.subrange(base, j * num_basis));
    while j < columns.end
        invariant
            columns.start <= j <= columns.end,
            columns.end * num_basis <= matrix@.len(),
            matrix@.len() <= usize::MAX,
            base == columns.start * num_basis,
            0 <= base <= j * num_basis,
            r@ == matrix@.subrange(base, j * num_basis),
        decreases columns.end - j,
    {
        proof {
            assert((j + 1) * num_basis == j * num_basis + num_basis) by (nonlinear_arith);
            assert((j + 1) * num_basis <= columns.end * num_basis) by (nonlinear_arith)
                requires
                    j + 1 <= columns.end,
                    0 <= num_basis,
            ;
        }
        let start: usize = j * num_basis;
        let mut i: usize = 0;
        while i < num_basis
            invariant
                i <= num_basis,
                start == j * num_basis,
                start + num_basis <= matrix@.len(),
                matrix@.len() <= usize::MAX,
                0 <= base <= start,
                r@ == matrix@.subrange(base, start + i),
            decreases num_basis - i,
        {
            r.push(matrix[start + i]);
            i += 1;
            assert(r@ =~= matrix@.subrange(base, start + i));
        }
        j += 1;
    }
    r
}

/// The generator is linear: neighbouring states are followed by states that differ by the
/// multiplier, and the state zero by the increment. Seeds work likewise, and seed zero gives one.
pub proof fn law_generator(state: int)
    ensures
        (lcg_next(state + 1) - lcg_next(state) - 6364136223846793005) % 0x1_0000_0000_0000_0000 == 0,
        lcg_next(0) == 1442695040888963407,
        (lcg_seeded(state + 1) - lcg_seeded(state) - 6364136223846793005) % 0x1_0000_0000_0000_0000
            == 0,
        lcg_seeded(0) == 1,
        0 <= lcg_next(state) < 0x1_0000_0000_0000_0000,
{
    let p = state * 6364136223846793005;
    assert((state + 1) * 6364136223846793005 == p + 6364136223846793005) by (nonlinear_arith)
        requires
            p == state * 6364136223846793005,
    ;
    lemma_mod_difference(p + 1442695040888963407, 6364136223846793005);
    lemma_mod_difference(p + 1, 6364136223846793005);
}

proof fn lemma_mod_difference(a: int, d: int)
    ensures
        ((a + d) % 0x1_0000_0000_0000_0000 - a % 0x1_0000_0000_0000_0000 - d)
            % 0x1_0000_0000_0000_0000 == 0,
{
    let s = 0x1_0000_0000_0000_0000int;
    let k = a / s - (a + d) / s;
    assert((a + d) % s - a % s - d == s * k);
    vstd::arithmetic::div_mod::lemma_mod_multiples_basic(k, s);
    assert(k * s == s * k) by (nonlinear_arith);
}

/// Scattered orbitals take the general kernel, and only they do. Of contiguous ones the side with
/// strictly fewer orbitals goes first, and the columns where both are equal.
pub proof fn law_kernel(rows: int, columns: int, contiguous: bool)
    ensures
        ao2mo_kernel(rows, columns, contiguous) == Ao2moKernel::V02 <==> !contiguous,
        ao2mo_kernel(rows, columns, contiguous) == Ao2moKernel::M2 <==> contiguous && rows < columns,
        ao2mo_kernel(rows, columns, contiguous) == Ao2moKernel::M1 <==> contiguous && columns
            <= rows,
{
}

/// A range holds what lies between its ends, and nothing when they are exchanged.
pub proof fn law_range_len(start: int, end: int)
    ensures
        start <= end ==> start + range_len(start, end) == end,
        start >= end ==> range_len(start, end) == 0,
{
}

/// A fifth of the orbitals are occupied, and the shapes join them as named: occupied with occupied,
/// with virtual and virtual with virtual, in that order behind virtual with occupied, then all with
/// all, one row with all, and an eighth of the rows, but at least one, with all.
pub proof fn law_cases(n: int, i: int)
    requires
        0 <= n,
        0 <= i < 7,
    ensures
        ({
            let (row, col) = (case_rows(n, i), case_columns(n, i));
            let occupied = (0int, n / 5);
            let unoccupied = (n / 5, n);
            let all = (0int, n);
            &&& i == 0 ==> row == unoccupied && col == occupied
            &&& i == 1 ==> row == occupied && col == occupied
            &&& i == 2 ==> row == occupied && col == unoccupied
            &&& i == 3 ==> row == unoccupied && col == unoccupied
            &&& i == 4 ==> row == all && col == all
            &&& i >= 5 ==> row.0 == 0 && col == all
            &&& i == 5 ==> row.1 == 1
            &&& i == 6 ==> row.1 >= 1 && (row.1 == 1 || 8 * row.1 <= n) && 8 * (row.1 + 1) > n
        }),
{
}

} // verus!
