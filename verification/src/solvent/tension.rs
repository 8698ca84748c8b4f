//! The surface tensions of a solute: which bonds change the tension of which atom, and which
//! tables they come from.

use crate::binary64::Real;
use crate::sequences::{ints, law_positions, positions};
use crate::solvent::smd_cds::{
    atoms_of, base_tension, bond_corrections, build_hsigma_aq, build_hsigma_n, build_sigma_a,
    build_sigma_aq, build_sigma_b, build_sigma_n, element_bond, family_corrections, hsigma_aq,
    hsigma_n, is_element, is_third, natcnv, rkkval, sigma_a, sigma_aq, sigma_b, sigma_n,
    law_bond_length, law_carbons_corrected, law_hydrogens_corrected, law_oxygens_corrected,
    law_triple_bonds_corrected, sphere_radii, sphere_radius, third_atoms, BondCorrection, BondFamily,
    SphereRadius, Tension, CARBON_NITROGEN, NITROGEN_CARBON, TABLE_LEN, USUAL_WIDTH,
};
use crate::solvent::surface_utils::SmdCavityRadii;
use vstd::prelude::*;

verus! {

/// A bond to an atom, weighted by a smooth cutoff around its length with the given width, both
/// in thousandths of an angstrom.
#[derive(Clone, Copy, Debug, PartialEq, Eq, Structural)]
pub struct WeightedBond {
    pub atom: usize,
    pub length: u32,
    pub width: u32,
}

/// The bond to atom `k` between elements `z` and `w`, with the usual width.
pub open spec fn usual_bond(k: int, z: int, w: int) -> WeightedBond {
    WeightedBond { atom: k as usize, length: element_bond(z, w) as u32, width: USUAL_WIDTH }
}

/// The bonds of a carbon to all nitrogens.
pub open spec fn nitrogen_bonds(zs: Seq<usize>) -> Seq<WeightedBond> {
    positions(zs.len(), is_element(zs, 7)).map_values(|k: int| usual_bond(k, 6, 7))
}

/// The bonds of carbon `j` that count toward its coordination as seen from nitrogen `i`:
/// those to every atom but these two.
pub open spec fn bonds_around(zs: Seq<usize>, i: int, j: int) -> Seq<WeightedBond> {
    positions(zs.len(), is_third(i, j)).map_values(|k: int| usual_bond(k, zs[k] as int, 6))
}

/// A carbon whose tension changes with the square of the sum of its bond weights to
/// nitrogens.
#[derive(Debug)]
pub struct CarbonNitrogen {
    pub carbon: usize,
    pub rule: SumRule,
    pub nitrogens: Vec<WeightedBond>,
}

/// A carbon next to a nitrogen: the bond to it, and the bonds whose weights add up to its
/// coordination.
#[derive(Debug)]
pub struct Coordination {
    pub bond: WeightedBond,
    pub around: Vec<WeightedBond>,
}

/// A nitrogen whose tension changes with a power of the sum, over its carbons, of the bond
/// weight times the squared coordination.
#[derive(Debug)]
pub struct NitrogenCarbon {
    pub nitrogen: usize,
    pub rule: SumRule,
    pub carbons: Vec<Coordination>,
}

/// A kind of change that grows with a power of a sum over bonds.
#[derive(Clone, Copy, Debug, PartialEq, Eq, Structural)]
pub enum SumKind {
    /// Nitrogens by the coordination of their carbons.
    NitrogenCarbon,
    /// Carbons by their bonds to nitrogens.
    CarbonNitrogen,
}

/// How a sum over bonds changes a tension: the table entry times the sum to a power, which is
/// given in tenths.
#[derive(Clone, Copy, Debug, PartialEq, Eq, Structural)]
pub struct SumRule {
    pub tension: usize,
    pub power: u32,
}

/// The rule of each kind of sum.
pub open spec fn rule_of(kind: SumKind) -> SumRule {
    match kind {
        SumKind::NitrogenCarbon => SumRule { tension: NITROGEN_CARBON, power: 13 },
        SumKind::CarbonNitrogen => SumRule { tension: CARBON_NITROGEN, power: 20 },
    }
}

/// The rule of each kind of sum.
pub fn sum_rule(kind: SumKind) -> (r: SumRule)
    ensures
        r == rule_of(kind),
{
    match kind {
        SumKind::NitrogenCarbon => SumRule { tension: NITROGEN_CARBON, power: 13 },
        SumKind::CarbonNitrogen => SumRule { tension: CARBON_NITROGEN, power: 20 },
    }
}

/// The coordination of carbon `j` as seen from nitrogen `i`.
pub open spec fn is_coordination(c: Coordination, zs: Seq<usize>, i: int, j: int) -> bool {
    &&& c.bond == usual_bond(j, 7, 6)
    &&& c.around@ == bonds_around(zs, i, j)
}

/// The carbons around nitrogen `i`.
pub open spec fn is_nitrogen(n: NitrogenCarbon, zs: Seq<usize>, i: int) -> bool {
    let carbons = positions(zs.len(), is_element(zs, 6));
    &&& n.nitrogen == i
    &&& n.rule == rule_of(SumKind::NitrogenCarbon)
    &&& n.carbons@.len() == carbons.len()
    &&& forall|y: int|
        0 <= y < carbons.len() ==> is_coordination(#[trigger] n.carbons@[y], zs, i, carbons[y])
}

/// The bonds of carbon `j` that count toward its coordination as seen from nitrogen `i`.
fn around(zs: &Vec<usize>, i: usize, j: usize) -> (r: Vec<WeightedBond>)
    ensures
        r@ == bonds_around(zs@, i as int, j as int),
{
    let thirds: Vec<usize> = third_atoms(zs.len(), i, j);
    let ghost p = positions(zs@.len(), is_third(i as int, j as int));
    proof {
        law_positions(zs@.len(), is_third(i as int, j as int));
        assert(ints(thirds@).len() == thirds@.len());
    }
    let mut r: Vec<WeightedBond> = Vec::new();
    let mut x: usize = 0;
    while x < thirds.len()
        invariant
            x <= thirds@.len(),
            ints(thirds@) == p,
            thirds@.len() == p.len(),
            forall|y: int| 0 <= y < p.len() ==> 0 <= #[trigger] p[y] < zs@.len(),
            r@.len() == x,
            forall|y: int|
                0 <= y < x ==> #[trigger] r@[y] == usual_bond(p[y], zs@[p[y]] as int, 6),
        decreases thirds@.len() - x,
    {
        let k: usize = thirds[x];
        assert(ints(thirds@)[x as int] == k);
        assert(p[x as int] == k);
        r.push(
            WeightedBond {
                atom: k,
                length: rkkval(natcnv(zs[k]), natcnv(6)),
                width: USUAL_WIDTH,
            },
        );
        x += 1;
    }
    assert(r@ =~= bonds_around(zs@, i as int, j as int));
    r
}

/// The carbons around every nitrogen.
pub fn nitrogen_coordinations(zs: &Vec<usize>) -> (r: Vec<NitrogenCarbon>)
    ensures
        r@.len() == positions(zs@.len(), is_element(zs@, 7)).len(),
        forall|x: int|
            0 <= x < r@.len() ==> is_nitrogen(
                #[trigger] r@[x],
                zs@,
                positions(zs@.len(), is_element(zs@, 7))[x],
            ),
{
    let nitrogens: Vec<usize> = atoms_of(zs, 7);
    let carbons: Vec<usize> = atoms_of(zs, 6);
    let ghost pn = positions(zs@.len(), is_element(zs@, 7));
    let ghost pc = positions(zs@.len(), is_element(zs@, 6));
    assert(ints(nitrogens@).len() == nitrogens@.len());
    assert(ints(carbons@).len() == carbons@.len());
    let mut r: Vec<NitrogenCarbon> = Vec::new();
    let mut x: usize = 0;
    while x < nitrogens.len()
        invariant
            x <= nitrogens@.len(),
            ints(nitrogens@) == pn,
            ints(carbons@) == pc,
            nitrogens@.len() == pn.len(),
            carbons@.len() == pc.len(),
            pc == positions(zs@.len(), is_element(zs@, 6)),
            r@.len() == x,
            forall|y: int| 0 <= y < x ==> is_nitrogen(#[trigger] r@[y], zs@, pn[y]),
        decreases nitrogens@.len() - x,
    {
        let i: usize = nitrogens[x];
        assert(ints(nitrogens@)[x as int] == i);
        let mut list: Vec<Coordination> = Vec::new();
        let mut y: usize = 0;
        while y < carbons.len()
            invariant
                y <= carbons@.len(),
                ints(carbons@) == pc,
                carbons@.len() == pc.len(),
                list@.len() == y,
                forall|w: int|
                    0 <= w < y ==> is_coordination(#[trigger] list@[w], zs@, i as int, pc[w]),
            decreases carbons@.len() - y,
        {
            let j: usize = carbons[y];
            assert(ints(carbons@)[y as int] == j);
            let c = Coordination {
                bond: WeightedBond {
                    atom: j,
                    length: rkkval(natcnv(7), natcnv(6)),
                    width: USUAL_WIDTH,
                },
                around: around(zs, i, j),
            };
            assert(is_coordination(c, zs@, i as int, pc[y as int]));
            list.push(c);
            y += 1;
        }
        let n = NitrogenCarbon {
            nitrogen: i,
            rule: sum_rule(SumKind::NitrogenCarbon),
            carbons: list,
        };
        assert(is_nitrogen(n, zs@, pn[x as int]));
        r.push(n);
        x += 1;
    }
    r
}

/// The bonds of every carbon to all nitrogens.
pub fn carbon_nitrogen_sums(zs: &Vec<usize>) -> (r: Vec<CarbonNitrogen>)
    ensures
        r@.len() == positions(zs@.len(), is_element(zs@, 6)).len(),
        forall|x: int|
            0 <= x < r@.len() ==> (#[trigger] r@[x]).carbon == positions(
                zs@.len(),
                is_element(zs@, 6),
            )[x] && r@[x].rule == rule_of(SumKind::CarbonNitrogen) && r@[x].nitrogens@
                == nitrogen_bonds(zs@),
{
    let carbons: Vec<usize> = atoms_of(zs, 6);
    let nitrogens: Vec<usize> = atoms_of(zs, 7);
    let ghost pc = positions(zs@.len(), is_element(zs@, 6));
    let ghost pn = positions(zs@.len(), is_element(zs@, 7));
    assert(ints(carbons@).len() == carbons@.len());
    assert(ints(nitrogens@).len() == nitrogens@.len());
    let mut r: Vec<CarbonNitrogen> = Vec::new();
    let mut x: usize = 0;
    while x < carbons.len()
        invariant
            x <= carbons@.len(),
            ints(carbons@) == pc,
            ints(nitrogens@) == pn,
            carbons@.len() == pc.len(),
            nitrogens@.len() == pn.len(),
            pn == positions(zs@.len(), is_element(zs@, 7)),
            r@.len() == x,
            forall|y: int|
                0 <= y < x ==> (#[trigger] r@[y]).carbon == pc[y] && r@[y].rule == rule_of(
                    SumKind::CarbonNitrogen,
                ) && r@[y].nitrogens@ == nitrogen_bonds(zs@),
        decreases carbons@.len() - x,
    {
        let mut list: Vec<WeightedBond> = Vec::new();
        let mut y: usize = 0;
        while y < nitrogens.len()
            invariant
                y <= nitrogens@.len(),
                ints(nitrogens@) == pn,
                nitrogens@.len() == pn.len(),
                list@.len() == y,
                forall|w: int| 0 <= w < y ==> #[trigger] list@[w] == usual_bond(pn[w], 6, 7),
            decreases nitrogens@.len() - y,
        {
            let k: usize = nitrogens[y];
            assert(ints(nitrogens@)[y as int] == k);
            list.push(
                WeightedBond {
                    atom: k,
                    length: rkkval(natcnv(6), natcnv(7)),
                    width: USUAL_WIDTH,
                },
            );
            y += 1;
        }
        assert(list@ =~= nitrogen_bonds(zs@));
        assert(ints(carbons@)[x as int] == carbons@[x as int]);
        r.push(
            CarbonNitrogen {
                carbon: carbons[x],
                rule: sum_rule(SumKind::CarbonNitrogen),
                nitrogens: list,
            },
        );
        x += 1;
    }
    r
}

/// The tensions of all atoms: where each starts from, and what changes it.
#[derive(Debug)]
pub struct TensionPlan {
    /// The table index of each atom's own tension.
    pub base: Vec<usize>,
    pub hydrogen: Vec<BondCorrection>,
    pub oxygen: Vec<BondCorrection>,
    pub nitrogen_carbon: Vec<NitrogenCarbon>,
    pub carbon: Vec<BondCorrection>,
    pub carbon_nitrogen: Vec<CarbonNitrogen>,
    pub triple: Vec<BondCorrection>,
}

/// The table index of an atom's own tension.
pub open spec fn base_index(z: usize) -> usize {
    if z <= 150 {
        z
    } else {
        150
    }
}

/// The tensions of all atoms.
pub open spec fn is_tension_plan(p: TensionPlan, zs: Seq<usize>) -> bool {
    let n = zs.len() as int;
    let carbons = positions(zs.len(), is_element(zs, 6));
    let nitrogens = positions(zs.len(), is_element(zs, 7));
    &&& p.base@ == zs.map_values(|z: usize| base_index(z))
    &&& p.hydrogen@ == family_corrections(BondFamily::HydrogenAny, zs, n)
    &&& p.oxygen@ == family_corrections(BondFamily::OxygenAny, zs, n)
    &&& p.carbon@ == family_corrections(BondFamily::CarbonCarbon, zs, n)
    &&& p.triple@ == family_corrections(BondFamily::NitrogenTriple, zs, n)
    &&& p.nitrogen_carbon@.len() == nitrogens.len()
    &&& forall|x: int|
        0 <= x < nitrogens.len() ==> is_nitrogen(
            #[trigger] p.nitrogen_carbon@[x],
            zs,
            nitrogens[x],
        )
    &&& p.carbon_nitrogen@.len() == carbons.len()
    &&& forall|x: int|
        0 <= x < carbons.len() ==> (#[trigger] p.carbon_nitrogen@[x]).carbon == carbons[x]
            && p.carbon_nitrogen@[x].rule == rule_of(SumKind::CarbonNitrogen)
            && p.carbon_nitrogen@[x].nitrogens@ == nitrogen_bonds(zs)
}

/// Lists what makes up the tensions of all atoms.
pub fn smx_cds(zs: &Vec<usize>) -> (p: TensionPlan)
    ensures
        is_tension_plan(p, zs@),
{
    let mut base: Vec<usize> = Vec::new();
    let mut i: usize = 0;
    while i < zs.len()
        invariant
            i <= zs@.len(),
            base@.len() == i,
            forall|x: int| 0 <= x < i ==> #[trigger] base@[x] == base_index(zs@[x]),
        decreases zs@.len() - i,
    {
        base.push(base_tension(zs[i]));
        i += 1;
    }
    assert(base@ =~= zs@.map_values(|z: usize| base_index(z)));
    TensionPlan {
        base,
        hydrogen: bond_corrections(BondFamily::HydrogenAny, zs),
        oxygen: bond_corrections(BondFamily::OxygenAny, zs),
        nitrogen_carbon: nitrogen_coordinations(zs),
        carbon: bond_corrections(BondFamily::CarbonCarbon, zs),
        carbon_nitrogen: carbon_nitrogen_sums(zs),
        triple: bond_corrections(BondFamily::NitrogenTriple, zs),
    }
}

/// An atom counts toward the coordination of carbon `j` as seen from nitrogen `i` exactly
/// once, unless it is one of the two.
pub proof fn law_coordination(zs: Seq<usize>, i: int, j: int, k: int)
    requires
        0 <= k < zs.len() <= usize::MAX,
    ensures
        (exists|x: int|
            0 <= x < bonds_around(zs, i, j).len() && (#[trigger] bonds_around(zs, i, j)[x]).atom
                == k) <==> k != i && k != j,
        forall|x: int, y: int|
            0 <= x < bonds_around(zs, i, j).len() && 0 <= y < bonds_around(zs, i, j).len() && (
            #[trigger] bonds_around(zs, i, j)[x]).atom == (#[trigger] bonds_around(
                zs,
                i,
                j,
            )[y]).atom ==> x == y,
{
    let p = positions(zs.len(), is_third(i, j));
    let b = bonds_around(zs, i, j);
    law_positions(zs.len(), is_third(i, j));
    assert(p.contains(k) <==> is_third(i, j)(k));
    assert forall|x: int| 0 <= x < b.len() implies (#[trigger] b[x]).atom == p[x] by {
        assert(0 <= p[x] < zs.len());
    }
    if k != i && k != j {
        let x = choose|x: int| 0 <= x < p.len() && p[x] == k;
        assert(b[x].atom == k);
    }
    if exists|x: int| 0 <= x < b.len() && (#[trigger] b[x]).atom == k {
        let x = choose|x: int| 0 <= x < b.len() && (#[trigger] b[x]).atom == k;
        assert(p[x] == k);
        assert(p.contains(k));
    }
    assert forall|x: int, y: int|
        0 <= x < b.len() && 0 <= y < b.len() && (#[trigger] b[x]).atom == (#[trigger] b[y]).atom
        implies x == y by {
        assert(p[x] == p[y]);
        if x < y {
            assert(p[x] < p[y]);
        }
        if y < x {
            assert(p[y] < p[x]);
        }
    }
}

/// What a solvent other than water adds to every atom's tension, in hundredths: a multiple of
/// its surface tension and of the squares of three other descriptors.
#[derive(Clone, Copy, Debug, PartialEq, Eq, Structural)]
pub struct MolecularTension {
    pub surface_tension: i32,
    pub basicity_squared: i32,
    pub aromaticity_squared: i32,
    pub halogenicity_squared: i32,
}

/// The tables of a solvent, in hundredths.
#[derive(Debug)]
pub enum TensionTables {
    /// The tables of water, which adds nothing to every atom.
    Water { sigma: Vec<i32>, hsigma: Vec<i32> },
    /// The parts of the tables that are multiplied with the refractive index, the acidity and
    /// the basicity; the table of hydrogen has a refractive-index part only.
    Other {
        sigma_n: Vec<i32>,
        sigma_a: Vec<i32>,
        sigma_b: Vec<i32>,
        hsigma_n: Vec<i32>,
        molecular: MolecularTension,
    },
}

/// A table with the given entries.
pub open spec fn is_table(t: Seq<i32>, entry: spec_fn(int) -> int) -> bool {
    &&& t.len() == TABLE_LEN
    &&& forall|i: int| 0 <= i < TABLE_LEN ==> #[trigger] t[i] == entry(i)
}

/// The tables of water.
pub open spec fn water_tables(t: TensionTables) -> bool {
    t matches TensionTables::Water { sigma, hsigma } && is_table(sigma@, |i: int| sigma_aq(i))
        && is_table(hsigma@, |i: int| hsigma_aq(i))
}

/// What a solvent other than water adds to every atom's tension.
pub open spec fn molecular_tension() -> MolecularTension {
    MolecularTension {
        surface_tension: 35,
        basicity_squared: 0,
        aromaticity_squared: (-419) as i32,
        halogenicity_squared: (-668) as i32,
    }
}

/// The tables of a solvent other than water.
pub open spec fn other_tables(t: TensionTables) -> bool {
    t matches TensionTables::Other { sigma_n: n, sigma_a: a, sigma_b: b, hsigma_n: h, molecular: m }
        && is_table(n@, |i: int| sigma_n(i)) && is_table(a@, |i: int| sigma_a(i)) && is_table(
        b@,
        |i: int| sigma_b(i),
    ) && is_table(h@, |i: int| hsigma_n(i)) && m == molecular_tension()
}

/// The tables of the solvent with this number.
pub open spec fn tables_of(icds: i32, t: TensionTables) -> bool {
    if icds == 1 {
        water_tables(t)
    } else {
        other_tables(t)
    }
}

/// The tables of water.
pub fn smd_cds_aq() -> (t: TensionTables)
    ensures
        water_tables(t),
{
    TensionTables::Water { sigma: build_sigma_aq(), hsigma: build_hsigma_aq() }
}

/// The tables of a solvent other than water.
pub fn smd_cds_naq() -> (t: TensionTables)
    ensures
        other_tables(t),
{
    TensionTables::Other {
        sigma_n: build_sigma_n(),
        sigma_a: build_sigma_a(),
        sigma_b: build_sigma_b(),
        hsigma_n: build_hsigma_n(),
        molecular: MolecularTension {
            surface_tension: 35,
            basicity_squared: 0,
            aromaticity_squared: -419,
            halogenicity_squared: -668,
        },
    }
}

/// The radius of the solvent probe in hundredths of an angstrom.
pub const PROBE: u32 = 40;

/// What the surface-tension energy of a solute is made from.
#[derive(Debug)]
pub struct CdsPlan {
    pub tables: TensionTables,
    pub tensions: TensionPlan,
    /// Where the radius of each atom comes from, before the probe's is added.
    pub radii: Vec<SphereRadius>,
    pub probe: u32,
}

/// Plans the surface-tension energy of a solute: in water if `icds` is 1, in another solvent
/// otherwise.
pub fn compute_cds(
    zs: &Vec<usize>,
    icds: i32,
    scheme: SmdCavityRadii,
    measured: &Vec<Real>,
) -> (p: CdsPlan)
    ensures
        tables_of(icds, p.tables),
        is_tension_plan(p.tensions, zs@),
        p.radii@ == zs@.map_values(|z: usize| sphere_radius(z, scheme, measured@)),
        p.probe == PROBE,
{
    let tables: TensionTables = if icds == 1 {
        smd_cds_aq()
    } else {
        smd_cds_naq()
    };
    CdsPlan {
        tables,
        tensions: smx_cds(zs),
        radii: sphere_radii(zs, scheme, measured),
        probe: PROBE,
    }
}

/// Nitrogens change by table entry 105 with the sum to the power 1.3, carbons by entry 110 with
/// its square.
pub proof fn law_sum_rules(kind: SumKind)
    ensures
        rule_of(kind).tension == 105 <==> kind == SumKind::NitrogenCarbon,
        rule_of(kind).tension == 110 <==> kind == SumKind::CarbonNitrogen,
        rule_of(kind).power == 13 <==> rule_of(kind).tension == 105,
        rule_of(kind).power == 20 <==> rule_of(kind).tension == 110,
{
}

/// A carbon counts its bonds to every nitrogen and to nothing else, each with length 1.84 and
/// width 0.30.
pub proof fn law_nitrogens_counted(zs: Seq<usize>, b: WeightedBond)
    requires
        zs.len() <= usize::MAX,
    ensures
        nitrogen_bonds(zs).contains(b) <==> b.atom < zs.len() && zs[b.atom as int] == 7 && b.length
            == 1840 && b.width == 300,
{
    let p = positions(zs.len(), is_element(zs, 7));
    let n = nitrogen_bonds(zs);
    law_positions(zs.len(), is_element(zs, 7));
    if n.contains(b) {
        let x = choose|x: int| 0 <= x < n.len() && n[x] == b;
        assert(0 <= p[x] < zs.len() && is_element(zs, 7)(p[x]));
    }
    if b.atom < zs.len() && zs[b.atom as int] == 7 && b.length == 1840 && b.width == 300 {
        assert(is_element(zs, 7)(b.atom as int));
        assert(p.contains(b.atom as int));
        let x = choose|x: int| 0 <= x < p.len() && p[x] == b.atom;
        assert(n[x] == b);
    }
}

/// The coordination of a carbon counts every atom but the two of the bond it is seen along,
/// each with the length of that atom at carbon and with width 0.30.
pub proof fn law_coordination_lengths(zs: Seq<usize>, i: int, j: int, b: WeightedBond)
    requires
        zs.len() <= usize::MAX,
    ensures
        bonds_around(zs, i, j).contains(b) <==> {
            &&& b.atom < zs.len() && b.atom != i && b.atom != j
            &&& b.length == element_bond(6, zs[b.atom as int] as int)
            &&& b.width == 300
        },
{
    let p = positions(zs.len(), is_third(i, j));
    let n = bonds_around(zs, i, j);
    law_positions(zs.len(), is_third(i, j));
    if b.atom < zs.len() {
        law_bond_length(
            crate::solvent::smd_cds::element_class(6),
            crate::solvent::smd_cds::element_class(zs[b.atom as int] as int),
        );
    }
    if n.contains(b) {
        let x = choose|x: int| 0 <= x < n.len() && n[x] == b;
        assert(0 <= p[x] < zs.len() && is_third(i, j)(p[x]));
        assert(b.atom == p[x]);
    }
    if b.atom < zs.len() && b.atom != i && b.atom != j && b.length == element_bond(
        6,
        zs[b.atom as int] as int,
    ) && b.width == 300 {
        assert(is_third(i, j)(b.atom as int));
        assert(p.contains(b.atom as int));
        let x = choose|x: int| 0 <= x < p.len() && p[x] == b.atom;
        assert(n[x] == b);
    }
}

/// Of a whole molecule: a correction stands in a plan exactly when its atom is of the element
/// that the list is for, and its partner, table entry, length and width go together.
pub proof fn law_plan_corrections(p: TensionPlan, zs: Seq<usize>, c: BondCorrection)
    requires
        zs.len() <= usize::MAX,
        is_tension_plan(p, zs),
    ensures
        ({
            let pair = c.atom < zs.len() && c.partner < zs.len() && c.atom != c.partner;
            let (z, w) = (zs[c.atom as int], zs[c.partner as int]);
            &&& p.carbon@.contains(c) <==> pair && z == 6 && w == 6 && c.tension == Tension::Bond(101)
                && c.length == 1840 && c.width == 300
            &&& p.triple@.contains(c) <==> pair && z == 7 && w == 6 && c.tension == Tension::Bond(116)
                && c.length == 1225 && c.width == 65
            &&& p.oxygen@.contains(c) ==> pair && z == 8
            &&& p.oxygen@.contains(c) && c.tension == Tension::Bond(103) <==> pair && z == 8 && w
                == 6 && c.tension == Tension::Bond(103) && c.length == 1330 && c.width == 100
            &&& p.hydrogen@.contains(c) ==> pair && z == 1 && c.tension == Tension::Hydrogen(w)
        }),
{
    law_carbons_corrected(zs, c);
    law_triple_bonds_corrected(zs, c);
    law_oxygens_corrected(zs, c);
    law_hydrogens_corrected(zs, c);
}

/// Of a whole molecule: every nitrogen has one sum, by table entry 105, over every carbon at
/// length 1.84; every carbon has one sum, by entry 110; no other atom has any.
pub proof fn law_plan_sums(p: TensionPlan, zs: Seq<usize>, i: int, j: int)
    requires
        zs.len() <= usize::MAX,
        is_tension_plan(p, zs),
        0 <= i < zs.len(),
        0 <= j < zs.len(),
    ensures
        zs[i] == 7 <==> exists|x: int|
            0 <= x < p.nitrogen_carbon@.len() && (#[trigger] p.nitrogen_carbon@[x]).nitrogen == i,
        zs[i] == 6 <==> exists|x: int|
            0 <= x < p.carbon_nitrogen@.len() && (#[trigger] p.carbon_nitrogen@[x]).carbon == i,
        forall|x: int, y: int|
            0 <= x < y < p.nitrogen_carbon@.len() ==> (#[trigger] p.nitrogen_carbon@[x]).nitrogen
                < (#[trigger] p.nitrogen_carbon@[y]).nitrogen,
        forall|x: int, y: int|
            0 <= x < y < p.carbon_nitrogen@.len() ==> (#[trigger] p.carbon_nitrogen@[x]).carbon
                < (#[trigger] p.carbon_nitrogen@[y]).carbon,
        forall|x: int|
            0 <= x < p.nitrogen_carbon@.len() ==> {
                let n = #[trigger] p.nitrogen_carbon@[x];
                &&& n.rule.tension == 105 && n.rule.power == 13
                &&& zs[j] == 6 <==> exists|y: int|
                    0 <= y < n.carbons@.len() && (#[trigger] n.carbons@[y]).bond.atom == j
                &&& forall|y: int|
                    0 <= y < n.carbons@.len() ==> (#[trigger] n.carbons@[y]).bond.length == 1840
                        && n.carbons@[y].bond.width == 300 && n.carbons@[y].around@ == bonds_around(
                        zs,
                        n.nitrogen as int,
                        n.carbons@[y].bond.atom as int,
                    )
            },
        forall|x: int|
            0 <= x < p.carbon_nitrogen@.len() ==> {
                let c = #[trigger] p.carbon_nitrogen@[x];
                c.rule.tension == 110 && c.rule.power == 20 && c.nitrogens@ == nitrogen_bonds(zs)
            },
{
    let carbons = positions(zs.len(), is_element(zs, 6));
    let nitrogens = positions(zs.len(), is_element(zs, 7));
    law_positions(zs.len(), is_element(zs, 6));
    law_positions(zs.len(), is_element(zs, 7));
    assert(nitrogens.contains(i) <==> is_element(zs, 7)(i));
    assert(carbons.contains(i) <==> is_element(zs, 6)(i));
    assert(carbons.contains(j) <==> is_element(zs, 6)(j));
    assert forall|x: int| 0 <= x < nitrogens.len() implies (#[trigger] p.nitrogen_carbon@[x]).nitrogen
        == nitrogens[x] by {
        assert(is_nitrogen(p.nitrogen_carbon@[x], zs, nitrogens[x]));
    }
    if zs[i] == 7 {
        let x = choose|x: int| 0 <= x < nitrogens.len() && nitrogens[x] == i;
        assert(p.nitrogen_carbon@[x].nitrogen == i);
    }
    if zs[i] == 6 {
        let x = choose|x: int| 0 <= x < carbons.len() && carbons[x] == i;
        assert(p.carbon_nitrogen@[x].carbon == i);
    }
    if exists|x: int|
        0 <= x < p.nitrogen_carbon@.len() && (#[trigger] p.nitrogen_carbon@[x]).nitrogen == i {
        let x = choose|x: int|
            0 <= x < p.nitrogen_carbon@.len() && (#[trigger] p.nitrogen_carbon@[x]).nitrogen == i;
        assert(nitrogens[x] == i);
    }
    if exists|x: int|
        0 <= x < p.carbon_nitrogen@.len() && (#[trigger] p.carbon_nitrogen@[x]).carbon == i {
        let x = choose|x: int|
            0 <= x < p.carbon_nitrogen@.len() && (#[trigger] p.carbon_nitrogen@[x]).carbon == i;
        assert(carbons[x] == i);
    }
    assert forall|x: int| 0 <= x < p.nitrogen_carbon@.len() implies {
        let n = #[trigger] p.nitrogen_carbon@[x];
        &&& n.rule.tension == 105 && n.rule.power == 13
        &&& zs[j] == 6 <==> exists|y: int|
            0 <= y < n.carbons@.len() && (#[trigger] n.carbons@[y]).bond.atom == j
        &&& forall|y: int|
            0 <= y < n.carbons@.len() ==> (#[trigger] n.carbons@[y]).bond.length == 1840
                && n.carbons@[y].bond.width == 300 && n.carbons@[y].around@ == bonds_around(
                zs,
                n.nitrogen as int,
                n.carbons@[y].bond.atom as int,
            )
    } by {
        let n = p.nitrogen_carbon@[x];
        assert(is_nitrogen(n, zs, nitrogens[x]));
        assert forall|y: int| 0 <= y < n.carbons@.len() implies (
        #[trigger] n.carbons@[y]).bond.atom == carbons[y] by {
            assert(0 <= carbons[y] < zs.len());
            assert(is_coordination(n.carbons@[y], zs, nitrogens[x], carbons[y]));
        }
        if zs[j] == 6 {
            let y = choose|y: int| 0 <= y < carbons.len() && carbons[y] == j;
            assert(n.carbons@[y].bond.atom == j);
        }
        if exists|y: int| 0 <= y < n.carbons@.len() && (#[trigger] n.carbons@[y]).bond.atom == j {
            let y = choose|y: int|
                0 <= y < n.carbons@.len() && (#[trigger] n.carbons@[y]).bond.atom == j;
            assert(carbons[y] == j);
        }
    }
}

/// An atom starts from the entry of its own element, or from the last entry when the tables end
/// before it.
pub proof fn law_base_index(z: usize)
    ensures
        z < TABLE_LEN ==> base_index(z) == z,
        z >= TABLE_LEN ==> base_index(z) == 150,
        base_index(z) < TABLE_LEN,
        TABLE_LEN == 151,
{
}

/// Solvent 1 is water and has the tables of water; every other number has the other tables.
/// Entries are found at the atomic numbers and at the bond numbers that the corrections name.
pub proof fn law_tables(icds: i32, t: TensionTables)
    requires
        tables_of(icds, t),
    ensures
        t is Water <==> icds == 1,
        t matches TensionTables::Water { sigma, hsigma } ==> {
            &&& sigma@.len() == 151 && hsigma@.len() == 151
            &&& sigma@[1] == 4869 && sigma@[6] == 12974 && sigma@[7] == 0 && sigma@[8] == 0
            &&& sigma@[101] == -7295 && sigma@[103] == 6869 && sigma@[105] == -4822
            &&& sigma@[106] == 12198 && sigma@[114] == 6885 && sigma@[116] == 8410
            &&& sigma@[104] == 0 && sigma@[110] == 0
            &&& hsigma@[6] == -6077 && hsigma@[8] == 0
        },
        t matches TensionTables::Other { sigma_n: n, sigma_a: a, sigma_b: b, hsigma_n: h, molecular: m }
            ==> {
            &&& n@.len() == 151 && a@.len() == 151 && b@.len() == 151 && h@.len() == 151
            &&& n@[6] == 5810 && n@[7] == 3262 && n@[8] == -1756
            &&& n@[101] == -6205 && n@[103] == -1570 && n@[110] == -9976 && n@[105] == 0
            &&& a@[8] == 19306 && a@[105] == -4100 && a@[110] == 15220 && a@[101] == 0
            &&& b@[8] == -4379 && b@[104] == -12816 && b@[106] == 7913 && b@[103] == 0
            &&& h@[6] == -3637 && h@[8] == -1939
            &&& m.surface_tension == 35 && m.basicity_squared == 0 && m.aromaticity_squared == -419
                && m.halogenicity_squared == -668
        },
{
    match t {
        TensionTables::Water { sigma, hsigma } => {
            assert(sigma@[1] == sigma_aq(1));
            assert(sigma@[6] == sigma_aq(6));
            assert(sigma@[7] == sigma_aq(7));
            assert(sigma@[8] == sigma_aq(8));
            assert(sigma@[101] == sigma_aq(101));
            assert(sigma@[103] == sigma_aq(103));
            assert(sigma@[104] == sigma_aq(104));
            assert(sigma@[105] == sigma_aq(105));
            assert(sigma@[106] == sigma_aq(106));
            assert(sigma@[110] == sigma_aq(110));
            assert(sigma@[114] == sigma_aq(114));
            assert(sigma@[116] == sigma_aq(116));
            assert(hsigma@[6] == hsigma_aq(6));
            assert(hsigma@[8] == hsigma_aq(8));
        },
        TensionTables::Other { sigma_n: n, sigma_a: a, sigma_b: b, hsigma_n: h, molecular: m } => {
            assert(n@[6] == sigma_n(6));
            assert(n@[7] == sigma_n(7));
            assert(n@[8] == sigma_n(8));
            assert(n@[101] == sigma_n(101));
            assert(n@[103] == sigma_n(103));
            assert(n@[105] == sigma_n(105));
            assert(n@[110] == sigma_n(110));
            assert(a@[8] == sigma_a(8));
            assert(a@[101] == sigma_a(101));
            assert(a@[105] == sigma_a(105));
            assert(a@[110] == sigma_a(110));
            assert(b@[8] == sigma_b(8));
            assert(b@[103] == sigma_b(103));
            assert(b@[104] == sigma_b(104));
            assert(b@[106] == sigma_b(106));
            assert(h@[6] == hsigma_n(6));
            assert(h@[8] == hsigma_n(8));
        },
    }
}

/// The probe has a radius of 0.40.
pub proof fn law_probe()
    ensures
        PROBE == 40,
{
}

} // verus!
