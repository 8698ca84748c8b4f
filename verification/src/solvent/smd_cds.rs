//! Cavitation, dispersion and solvent-structure terms: parameter tables, the bond
//! corrections to the atomic surface tensions, and the assembly of the gradient.
//!
//! Tabulated lengths are in thousandths of an angstrom, radii in hundredths of an
//! angstrom, and surface tensions in hundredths of cal/mol per square angstrom.

use crate::binary64::Real;
use crate::sequences::{ints, lemma_ints_push, positions};
use crate::solvent::surface_utils::SmdCavityRadii;
use vstd::prelude::*;

verus! {

/// The number of entries of a surface tension table: elements below 101, bond types
/// from 101 on.
pub const TABLE_LEN: usize = 151;

/// The parameter class of an element: 1=H, 2=C, 3=N, 4=O, 5=F, 6=S, 7=Cl, 8=Br, 9=P,
/// 10=I, 11=Si; 0 for elements without parameters.
pub open spec fn element_class(z: int) -> int {
    if z == 1 {
        1
    } else if z == 6 {
        2
    } else if z == 7 {
        3
    } else if z == 8 {
        4
    } else if z == 9 {
        5
    } else if z == 16 {
        6
    } else if z == 17 {
        7
    } else if z == 35 {
        8
    } else if z == 15 {
        9
    } else if z == 53 {
        10
    } else if z == 14 {
        11
    } else {
        0
    }
}

/// The parameter class of atomic number `z`.
pub fn natcnv(z: usize) -> (t: usize)
    ensures
        t == element_class(z as int),
{
    match z {
        1 => 1,
        6 => 2,
        7 => 3,
        8 => 4,
        9 => 5,
        14 => 11,
        15 => 9,
        16 => 6,
        17 => 7,
        35 => 8,
        53 => 10,
        _ => 0,
    }
}

/// The bond length of two classes `a <= b`.
pub open spec fn class_bond(a: int, b: int) -> int {
    if a == 1 {
        if 2 <= b <= 4 {
            1550
        } else if b == 6 {
            2140
        } else {
            0
        }
    } else if a == 2 {
        if 2 <= b <= 5 {
            1840
        } else if b == 6 || b == 9 {
            2200
        } else if b == 7 {
            2100
        } else if b == 8 {
            2300
        } else if b == 10 {
            2600
        } else {
            0
        }
    } else if a == 3 {
        if b == 3 {
            1850
        } else if b == 4 {
            1500
        } else {
            0
        }
    } else if a == 4 {
        if b == 4 {
            2750
        } else if b == 6 {
            1710
        } else if b == 9 || b == 11 {
            2100
        } else {
            0
        }
    } else if a == 6 {
        if b == 6 {
            2750
        } else if b == 9 {
            2500
        } else {
            0
        }
    } else {
        0
    }
}

/// The sum of the covalent radii of two classes; zero where none is tabulated.
pub open spec fn bond_length(a: int, b: int) -> int {
    if a <= b {
        class_bond(a, b)
    } else {
        class_bond(b, a)
    }
}

/// The table of bond lengths is symmetric, and empty outside the eleven classes.
pub proof fn law_bond_length(a: int, b: int)
    ensures
        bond_length(a, b) == bond_length(b, a),
        !(1 <= a <= 11 && 1 <= b <= 11) ==> bond_length(a, b) == 0,
        0 <= bond_length(a, b) <= 2750,
{
}

/// The expected bond length of classes `itpc` and `jtpc`.
pub fn rkkval(itpc: usize, jtpc: usize) -> (r: u32)
    ensures
        r == bond_length(itpc as int, jtpc as int),
{
    let (a, b): (usize, usize) = if itpc <= jtpc {
        (itpc, jtpc)
    } else {
        (jtpc, itpc)
    };
    match (a, b) {
        (1, 2) | (1, 3) | (1, 4) => 1550,
        (1, 6) => 2140,
        (2, 2) | (2, 3) | (2, 4) | (2, 5) => 1840,
        (2, 6) | (2, 9) => 2200,
        (2, 7) => 2100,
        (2, 8) => 2300,
        (2, 10) => 2600,
        (3, 3) => 1850,
        (3, 4) => 1500,
        (4, 4) | (6, 6) => 2750,
        (4, 6) => 1710,
        (4, 9) | (4, 11) => 2100,
        (6, 9) => 2500,
        _ => 0,
    }
}

/// The surface tensions in water, by table index.
pub open spec fn sigma_aq(i: int) -> int {
    if i == 1 {
        4869
    } else if i == 6 {
        12974
    } else if i == 9 {
        3818
    } else if i == 16 {
        -910
    } else if i == 17 {
        982
    } else if i == 35 {
        -872
    } else if i == 101 {
        -7295
    } else if i == 103 {
        6869
    } else if i == 105 {
        -4822
    } else if i == 106 {
        12198
    } else if i == 114 {
        6885
    } else if i == 116 {
        8410
    } else {
        0
    }
}

/// The surface tensions in water.
pub fn build_sigma_aq() -> (t: Vec<i32>)
    ensures
        t@.len() == TABLE_LEN,
        forall|i: int| 0 <= i < TABLE_LEN ==> #[trigger] t@[i] == sigma_aq(i),
{
    let mut t: Vec<i32> = Vec::new();
    let mut i: usize = 0;
    while i < TABLE_LEN
        invariant
            i <= TABLE_LEN,
            t@.len() == i,
            forall|x: int| 0 <= x < i ==> #[trigger] t@[x] == sigma_aq(x),
        decreases TABLE_LEN - i,
    {
        let v: i32 = match i {
            1 => 4869,
            6 => 12974,
            9 => 3818,
            16 => -910,
            17 => 982,
            35 => -872,
            101 => -7295,
            103 => 6869,
            105 => -4822,
            106 => 12198,
            114 => 6885,
            116 => 8410,
            _ => 0,
        };
        t.push(v);
        i += 1;
    }
    t
}

/// The changes of the tension of a bonded hydrogen in water, by table index.
pub open spec fn hsigma_aq(i: int) -> int {
    if i == 6 {
        -6077
    } else {
        0
    }
}

/// The changes of the tension of a bonded hydrogen in water.
pub fn build_hsigma_aq() -> (t: Vec<i32>)
    ensures
        t@.len() == TABLE_LEN,
        forall|i: int| 0 <= i < TABLE_LEN ==> #[trigger] t@[i] == hsigma_aq(i),
{
    let mut t: Vec<i32> = Vec::new();
    let mut i: usize = 0;
    while i < TABLE_LEN
        invariant
            i <= TABLE_LEN,
            t@.len() == i,
            forall|x: int| 0 <= x < i ==> #[trigger] t@[x] == hsigma_aq(x),
        decreases TABLE_LEN - i,
    {
        let v: i32 = match i {
            6 => -6077,
            _ => 0,
        };
        t.push(v);
        i += 1;
    }
    t
}

/// The refractive-index parts of the tensions in other solvents, by table index.
pub open spec fn sigma_n(i: int) -> int {
    if i == 6 {
        5810
    } else if i == 7 {
        3262
    } else if i == 8 {
        -1756
    } else if i == 14 {
        -1804
    } else if i == 16 {
        -3317
    } else if i == 17 {
        -2431
    } else if i == 35 {
        -3542
    } else if i == 101 {
        -6205
    } else if i == 103 {
        -1570
    } else if i == 110 {
        -9976
    } else {
        0
    }
}

/// The refractive-index parts of the tensions in other solvents.
pub fn build_sigma_n() -> (t: Vec<i32>)
    ensures
        t@.len() == TABLE_LEN,
        forall|i: int| 0 <= i < TABLE_LEN ==> #[trigger] t@[i] == sigma_n(i),
{
    let mut t: Vec<i32> = Vec::new();
    let mut i: usize = 0;
    while i < TABLE_LEN
        invariant
            i <= TABLE_LEN,
            t@.len() == i,
            forall|x: int| 0 <= x < i ==> #[trigger] t@[x] == sigma_n(x),
        decreases TABLE_LEN - i,
    {
        let v: i32 = match i {
            6 => 5810,
            7 => 3262,
            8 => -1756,
            14 => -1804,
            16 => -3317,
            17 => -2431,
            35 => -3542,
            101 => -6205,
            103 => -1570,
            110 => -9976,
            _ => 0,
        };
        t.push(v);
        i += 1;
    }
    t
}

/// The acidity parts of the tensions in other solvents, by table index.
pub open spec fn sigma_a(i: int) -> int {
    if i == 6 {
        4810
    } else if i == 8 {
        19306
    } else if i == 103 {
        9599
    } else if i == 105 {
        -4100
    } else if i == 110 {
        15220
    } else {
        0
    }
}

/// The acidity parts of the tensions in other solvents.
pub fn build_sigma_a() -> (t: Vec<i32>)
    ensures
        t@.len() == TABLE_LEN,
        forall|i: int| 0 <= i < TABLE_LEN ==> #[trigger] t@[i] == sigma_a(i),
{
    let mut t: Vec<i32> = Vec::new();
    let mut i: usize = 0;
    while i < TABLE_LEN
        invariant
            i <= TABLE_LEN,
            t@.len() == i,
            forall|x: int| 0 <= x < i ==> #[trigger] t@[x] == sigma_a(x),
        decreases TABLE_LEN - i,
    {
        let v: i32 = match i {
            6 => 4810,
            8 => 19306,
            103 => 9599,
            105 => -4100,
            110 => 15220,
            _ => 0,
        };
        t.push(v);
        i += 1;
    }
    t
}

/// The basicity parts of the tensions in other solvents, by table index.
pub open spec fn sigma_b(i: int) -> int {
    if i == 6 {
        3287
    } else if i == 8 {
        -4379
    } else if i == 104 {
        -12816
    } else if i == 106 {
        7913
    } else {
        0
    }
}

/// The basicity parts of the tensions in other solvents.
pub fn build_sigma_b() -> (t: Vec<i32>)
    ensures
        t@.len() == TABLE_LEN,
        forall|i: int| 0 <= i < TABLE_LEN ==> #[trigger] t@[i] == sigma_b(i),
{
    let mut t: Vec<i32> = Vec::new();
    let mut i: usize = 0;
    while i < TABLE_LEN
        invariant
            i <= TABLE_LEN,
            t@.len() == i,
            forall|x: int| 0 <= x < i ==> #[trigger] t@[x] == sigma_b(x),
        decreases TABLE_LEN - i,
    {
        let v: i32 = match i {
            6 => 3287,
            8 => -4379,
            104 => -12816,
            106 => 7913,
            _ => 0,
        };
        t.push(v);
        i += 1;
    }
    t
}

/// The refractive-index parts of the hydrogen changes in other solvents, by table index.
pub open spec fn hsigma_n(i: int) -> int {
    if i == 6 {
        -3637
    } else if i == 8 {
        -1939
    } else {
        0
    }
}

/// The refractive-index parts of the hydrogen changes in other solvents.
pub fn build_hsigma_n() -> (t: Vec<i32>)
    ensures
        t@.len() == TABLE_LEN,
        forall|i: int| 0 <= i < TABLE_LEN ==> #[trigger] t@[i] == hsigma_n(i),
{
    let mut t: Vec<i32> = Vec::new();
    let mut i: usize = 0;
    while i < TABLE_LEN
        invariant
            i <= TABLE_LEN,
            t@.len() == i,
            forall|x: int| 0 <= x < i ==> #[trigger] t@[x] == hsigma_n(x),
        decreases TABLE_LEN - i,
    {
        let v: i32 = match i {
            6 => -3637,
            8 => -1939,
            _ => 0,
        };
        t.push(v);
        i += 1;
    }
    t
}

/// The Bondi radius of atomic number `z`; zero beyond xenon.
pub open spec fn bondi(z: int) -> int {
    if z == 1 {
        120
    } else if z == 2 {
        140
    } else if z == 3 {
        182
    } else if z == 4 {
        153
    } else if z == 5 {
        192
    } else if z == 6 {
        170
    } else if z == 7 {
        155
    } else if z == 8 {
        152
    } else if z == 9 {
        147
    } else if z == 10 {
        154
    } else if z == 11 {
        227
    } else if z == 12 {
        173
    } else if z == 13 {
        184
    } else if z == 14 {
        210
    } else if z == 15 {
        180
    } else if z == 16 {
        180
    } else if z == 17 {
        175
    } else if z == 18 {
        188
    } else if z == 19 {
        275
    } else if z == 20 {
        231
    } else if z == 21 {
        216
    } else if z == 22 {
        187
    } else if z == 23 {
        179
    } else if z == 24 {
        189
    } else if z == 25 {
        197
    } else if z == 26 {
        194
    } else if z == 27 {
        192
    } else if z == 28 {
        184
    } else if z == 29 {
        186
    } else if z == 30 {
        210
    } else if z == 31 {
        187
    } else if z == 32 {
        211
    } else if z == 33 {
        185
    } else if z == 34 {
        190
    } else if z == 35 {
        185
    } else if z == 36 {
        202
    } else if z == 37 {
        303
    } else if z == 38 {
        249
    } else if z == 39 {
        219
    } else if z == 40 {
        186
    } else if z == 41 {
        207
    } else if z == 42 {
        209
    } else if z == 43 {
        209
    } else if z == 44 {
        207
    } else if z == 45 {
        195
    } else if z == 46 {
        202
    } else if z == 47 {
        203
    } else if z == 48 {
        230
    } else if z == 49 {
        193
    } else if z == 50 {
        217
    } else if z == 51 {
        206
    } else if z == 52 {
        206
    } else if z == 53 {
        198
    } else if z == 54 {
        216
    } else {
        0
    }
}

/// The Bondi radius of atomic number `z`.
pub fn bondi_radius(z: usize) -> (r: u32)
    ensures
        r == bondi(z as int),
{
    match z {
        1 => 120,
        2 => 140,
        3 => 182,
        4 => 153,
        5 => 192,
        6 => 170,
        7 => 155,
        8 => 152,
        9 => 147,
        10 => 154,
        11 => 227,
        12 => 173,
        13 => 184,
        14 => 210,
        15 => 180,
        16 => 180,
        17 => 175,
        18 => 188,
        19 => 275,
        20 => 231,
        21 => 216,
        22 => 187,
        23 => 179,
        24 => 189,
        25 => 197,
        26 => 194,
        27 => 192,
        28 => 184,
        29 => 186,
        30 => 210,
        31 => 187,
        32 => 211,
        33 => 185,
        34 => 190,
        35 => 185,
        36 => 202,
        37 => 303,
        38 => 249,
        39 => 219,
        40 => 186,
        41 => 207,
        42 => 209,
        43 => 209,
        44 => 207,
        45 => 195,
        46 => 202,
        47 => 203,
        48 => 230,
        49 => 193,
        50 => 217,
        51 => 206,
        52 => 206,
        53 => 198,
        54 => 216,
        _ => 0,
    }
}

/// The table and index of a bond's surface tension.
#[derive(Clone, Copy, Debug, PartialEq, Eq, Structural)]
pub enum Tension {
    /// The table of hydrogen changes at an atomic number.
    Hydrogen(usize),
    /// The table of tensions at a bond type.
    Bond(usize),
}

/// How a partner changes the surface tension of an atom: the tension, weighted by a
/// smooth cutoff around the bond length with the given width.
#[derive(Clone, Copy, Debug, PartialEq, Eq, Structural)]
pub struct BondCorrection {
    pub atom: usize,
    pub partner: usize,
    pub tension: Tension,
    pub length: u32,
    pub width: u32,
}

/// The bond corrections that add up pair by pair.
#[derive(Clone, Copy, Debug, PartialEq, Eq, Structural)]
pub enum BondFamily {
    /// A hydrogen and any partner.
    HydrogenAny,
    /// An oxygen and carbon, nitrogen, phosphorus or another oxygen.
    OxygenAny,
    /// Two carbons.
    CarbonCarbon,
    /// A nitrogen and a carbon at the distance of a triple bond.
    NitrogenTriple,
}

/// Index of the carbon-carbon bond in the tension tables.
pub const CARBON_CARBON: usize = 101;

/// Index of the oxygen-carbon bond.
pub const OXYGEN_CARBON: usize = 103;

/// Index of the oxygen-oxygen bond.
pub const OXYGEN_OXYGEN: usize = 104;

/// Index of the nitrogen-carbon coordination.
pub const NITROGEN_CARBON: usize = 105;

/// Index of the oxygen-nitrogen bond.
pub const OXYGEN_NITROGEN: usize = 106;

/// Index of the carbon-nitrogen bond.
pub const CARBON_NITROGEN: usize = 110;

/// Index of the oxygen-phosphorus bond.
pub const OXYGEN_PHOSPHORUS: usize = 114;

/// Index of the nitrogen-carbon triple bond.
pub const NITROGEN_CARBON_TRIPLE: usize = 116;

/// The usual cutoff width.
pub const USUAL_WIDTH: u32 = 300;

/// The length of a nitrogen-carbon triple bond.
pub const TRIPLE_LENGTH: u32 = 1225;

/// The cutoff width of a nitrogen-carbon triple bond.
pub const TRIPLE_WIDTH: u32 = 65;

/// The bond length of two elements.
pub open spec fn element_bond(z: int, w: int) -> int {
    bond_length(element_class(z), element_class(w))
}

/// The correction of an atom of atomic number `z` by a partner of atomic number `w`.
pub open spec fn correction(
    family: BondFamily,
    z: int,
    w: int,
    atom: int,
    partner: int,
) -> Option<BondCorrection> {
    let make = |tension: Tension, length: int, width: u32|
        Some(
            BondCorrection {
                atom: atom as usize,
                partner: partner as usize,
                tension,
                length: length as u32,
                width,
            },
        );
    match family {
        BondFamily::HydrogenAny => if z == 1 && w < TABLE_LEN {
            make(Tension::Hydrogen(w as usize), element_bond(1, w), USUAL_WIDTH)
        } else {
            None
        },
        BondFamily::OxygenAny => if z == 8 && w == 6 {
            make(Tension::Bond(OXYGEN_CARBON), 1330, 100)
        } else if z == 8 && w == 7 {
            make(Tension::Bond(OXYGEN_NITROGEN), element_bond(8, 7), USUAL_WIDTH)
        } else if z == 8 && w == 15 {
            make(Tension::Bond(OXYGEN_PHOSPHORUS), element_bond(8, 15), USUAL_WIDTH)
        } else if z == 8 && w == 8 {
            make(Tension::Bond(OXYGEN_OXYGEN), 1800, USUAL_WIDTH)
        } else {
            None
        },
        BondFamily::CarbonCarbon => if z == 6 && w == 6 {
            make(Tension::Bond(CARBON_CARBON), element_bond(6, 6), USUAL_WIDTH)
        } else {
            None
        },
        BondFamily::NitrogenTriple => if z == 7 && w == 6 {
            make(Tension::Bond(NITROGEN_CARBON_TRIPLE), TRIPLE_LENGTH as int, TRIPLE_WIDTH)
        } else {
            None
        },
    }
}

/// The correction of one atom by one partner.
pub fn bond_correction(
    family: BondFamily,
    z: usize,
    w: usize,
    atom: usize,
    partner: usize,
) -> (r: Option<BondCorrection>)
    ensures
        r == correction(family, z as int, w as int, atom as int, partner as int),
{
    let (tension, length, width): (Tension, u32, u32) = match family {
        BondFamily::HydrogenAny => {
            if z != 1 || w >= TABLE_LEN {
                return None;
            }
            (Tension::Hydrogen(w), rkkval(natcnv(1), natcnv(w)), USUAL_WIDTH)
        },
        BondFamily::OxygenAny => {
            if z != 8 {
                return None;
            }
            match w {
                6 => (Tension::Bond(OXYGEN_CARBON), 1330, 100),
                7 => (
                    Tension::Bond(OXYGEN_NITROGEN),
                    rkkval(natcnv(8), natcnv(7)),
                    USUAL_WIDTH,
                ),
                15 => (
                    Tension::Bond(OXYGEN_PHOSPHORUS),
                    rkkval(natcnv(8), natcnv(15)),
                    USUAL_WIDTH,
                ),
                8 => (Tension::Bond(OXYGEN_OXYGEN), 1800, USUAL_WIDTH),
                _ => {
                    return None;
                },
            }
        },
        BondFamily::CarbonCarbon => {
            if z != 6 || w != 6 {
                return None;
            }
            (Tension::Bond(CARBON_CARBON), rkkval(natcnv(6), natcnv(6)), USUAL_WIDTH)
        },
        BondFamily::NitrogenTriple => {
            if z != 7 || w != 6 {
                return None;
            }
            (Tension::Bond(NITROGEN_CARBON_TRIPLE), TRIPLE_LENGTH, TRIPLE_WIDTH)
        },
    };
    Some(BondCorrection { atom, partner, tension, length, width })
}

/// The corrections of atom `i` by partners below `j`.
pub open spec fn atom_corrections(family: BondFamily, zs: Seq<usize>, i: int, j: int) -> Seq<
    BondCorrection,
>
    decreases j,
{
    if j <= 0 {
        seq![]
    } else {
        let earlier = atom_corrections(family, zs, i, j - 1);
        match correction(family, zs[i] as int, zs[j - 1] as int, i, j - 1) {
            Some(c) => if i != j - 1 {
                earlier.push(c)
            } else {
                earlier
            },
            None => earlier,
        }
    }
}

/// The corrections of all atoms below `i`, atom by atom.
pub open spec fn family_corrections(family: BondFamily, zs: Seq<usize>, i: int) -> Seq<
    BondCorrection,
>
    decreases i,
{
    if i <= 0 {
        seq![]
    } else {
        family_corrections(family, zs, i - 1) + atom_corrections(
            family,
            zs,
            i - 1,
            zs.len() as int,
        )
    }
}

/// All corrections of one family: for each atom in order, each other atom in order.
pub fn bond_corrections(family: BondFamily, zs: &Vec<usize>) -> (r: Vec<BondCorrection>)
    ensures
        r@ == family_corrections(family, zs@, zs@.len() as int),
{
    let mut r: Vec<BondCorrection> = Vec::new();
    let n: usize = zs.len();
    let mut i: usize = 0;
    while i < n
        invariant
            i <= n,
            n == zs@.len(),
            r@ == family_corrections(family, zs@, i as int),
        decreases n - i,
    {
        let mut j: usize = 0;
        let ghost done = r@;
        assert(r@ =~= done + atom_corrections(family, zs@, i as int, 0));
        while j < n
            invariant
                i < n,
                j <= n,
                n == zs@.len(),
                r@ == done + atom_corrections(family, zs@, i as int, j as int),
            decreases n - j,
        {
            if i != j {
                match bond_correction(family, zs[i], zs[j], i, j) {
                    Some(c) => {
                        r.push(c);
                    },
                    None => {},
                }
            }
            j += 1;
            assert(r@ =~= done + atom_corrections(family, zs@, i as int, j as int));
        }
        i += 1;
    }
    r
}

/// A correction is listed exactly when its family has one for that ordered pair of
/// different atoms.
pub proof fn law_corrections_listed(family: BondFamily, zs: Seq<usize>, c: BondCorrection)
    requires
        zs.len() <= usize::MAX,
    ensures
        family_corrections(family, zs, zs.len() as int).contains(c) <==> {
            &&& c.atom < zs.len()
            &&& c.partner < zs.len()
            &&& c.atom != c.partner
            &&& correction(
                family,
                zs[c.atom as int] as int,
                zs[c.partner as int] as int,
                c.atom as int,
                c.partner as int,
            ) == Some(c)
        },
{
    lemma_family_contains(family, zs, zs.len() as int, c);
}

proof fn lemma_atom_contains(family: BondFamily, zs: Seq<usize>, i: int, j: int, c: BondCorrection)
    requires
        0 <= i < zs.len() <= usize::MAX,
        0 <= j <= zs.len(),
    ensures
        atom_corrections(family, zs, i, j).contains(c) <==> {
            &&& c.atom == i
            &&& c.partner < j
            &&& c.atom != c.partner
            &&& correction(
                family,
                zs[i] as int,
                zs[c.partner as int] as int,
                i,
                c.partner as int,
            ) == Some(c)
        },
    decreases j,
{
    if j > 0 {
        lemma_atom_contains(family, zs, i, j - 1, c);
        let earlier = atom_corrections(family, zs, i, j - 1);
        match correction(family, zs[i] as int, zs[j - 1] as int, i, j - 1) {
            Some(d) => {
                if i != j - 1 {
                    lemma_push_contains(earlier, d, c);
                    assert(d.atom == i && d.partner == j - 1);
                }
            },
            None => {},
        }
    }
}

proof fn lemma_push_contains<T>(s: Seq<T>, d: T, c: T)
    ensures
        s.push(d).contains(c) <==> s.contains(c) || c == d,
{
    let t = s.push(d);
    if s.contains(c) {
        let k = choose|k: int| 0 <= k < s.len() && s[k] == c;
        assert(t[k] == c);
    }
    if c == d {
        assert(t[s.len() as int] == c);
    }
    if t.contains(c) {
        let k = choose|k: int| 0 <= k < t.len() && t[k] == c;
        if k < s.len() {
            assert(s[k] == c);
        }
    }
}

proof fn lemma_concat_contains<T>(a: Seq<T>, b: Seq<T>, c: T)
    ensures
        (a + b).contains(c) <==> a.contains(c) || b.contains(c),
{
    let t = a + b;
    if a.contains(c) {
        let k = choose|k: int| 0 <= k < a.len() && a[k] == c;
        assert(t[k] == c);
    }
    if b.contains(c) {
        let k = choose|k: int| 0 <= k < b.len() && b[k] == c;
        assert(t[a.len() + k] == c);
    }
    if t.contains(c) {
        let k = choose|k: int| 0 <= k < t.len() && t[k] == c;
        if k < a.len() {
            assert(a[k] == c);
        } else {
            assert(b[k - a.len()] == c);
        }
    }
}

proof fn lemma_family_contains(family: BondFamily, zs: Seq<usize>, i: int, c: BondCorrection)
    requires
        0 <= i <= zs.len() <= usize::MAX,
    ensures
        family_corrections(family, zs, i).contains(c) <==> {
            &&& c.atom < i
            &&& c.partner < zs.len()
            &&& c.atom != c.partner
            &&& correction(
                family,
                zs[c.atom as int] as int,
                zs[c.partner as int] as int,
                c.atom as int,
                c.partner as int,
            ) == Some(c)
        },
    decreases i,
{
    if i > 0 {
        lemma_family_contains(family, zs, i - 1, c);
        lemma_atom_contains(family, zs, i - 1, zs.len() as int, c);
        lemma_concat_contains(
            family_corrections(family, zs, i - 1),
            atom_corrections(family, zs, i - 1, zs.len() as int),
            c,
        );
    }
}

/// Whether an atom has the given atomic number.
pub open spec fn is_element(zs: Seq<usize>, z: usize) -> spec_fn(int) -> bool {
    |i: int| zs[i] == z
}

/// The atoms of one element, in order.
pub fn atoms_of(zs: &Vec<usize>, z: usize) -> (r: Vec<usize>)
    ensures
        ints(r@) == positions(zs@.len(), is_element(zs@, z)),
{
    let mut r: Vec<usize> = Vec::new();
    assert(ints(r@) =~= seq![]);
    let mut i: usize = 0;
    while i < zs.len()
        invariant
            i <= zs@.len(),
            ints(r@) == positions(i as nat, is_element(zs@, z)),
        decreases zs@.len() - i,
    {
        if zs[i] == z {
            proof {
                lemma_ints_push(r@, i);
            }
            r.push(i);
        }
        i += 1;
    }
    r
}

/// Whether an atom is neither of two others.
pub open spec fn is_third(i: int, j: int) -> spec_fn(int) -> bool {
    |k: int| k != i && k != j
}

/// The atoms around carbon `j` that count toward its coordination as seen from
/// nitrogen `i`: every atom but those two.
pub fn third_atoms(natm: usize, i: usize, j: usize) -> (r: Vec<usize>)
    ensures
        ints(r@) == positions(natm as nat, is_third(i as int, j as int)),
{
    let mut r: Vec<usize> = Vec::new();
    assert(ints(r@) =~= seq![]);
    let mut k: usize = 0;
    while k < natm
        invariant
            k <= natm,
            ints(r@) == positions(k as nat, is_third(i as int, j as int)),
        decreases natm - k,
    {
        if k != i && k != j {
            proof {
                lemma_ints_push(r@, k);
            }
            r.push(k);
        }
        k += 1;
    }
    r
}

/// The table index of an atom's own surface tension.
pub fn base_tension(z: usize) -> (i: usize)
    ensures
        i == (if z <= 150 { z } else { 150usize }),
{
    if z <= 150 {
        z
    } else {
        150
    }
}

/// Where the radius of an accessible sphere comes from, before the probe is added.
#[derive(Clone, Copy, Debug, PartialEq, Eq, Structural)]
pub enum SphereRadius {
    /// A Bondi radius in hundredths of an angstrom.
    Bondi(u32),
    /// The table of measured radii at this atomic number.
    Measured(usize),
}

/// The accessible sphere of one atom.
pub open spec fn sphere_radius(z: usize, scheme: SmdCavityRadii, measured: Seq<Real>) -> SphereRadius {
    if scheme == SmdCavityRadii::BondiUff && element_class(z as int) == 0 && z < measured.len()
        && crate::binary64::zero().below(measured[z as int]) {
        SphereRadius::Measured(z)
    } else {
        SphereRadius::Bondi(bondi(if z <= 102 { z as int } else { 102 }) as u32)
    }
}

/// The accessible spheres of all atoms.
pub fn sphere_radii(zs: &Vec<usize>, scheme: SmdCavityRadii, measured: &Vec<Real>) -> (r: Vec<
    SphereRadius,
>)
    ensures
        r@ == zs@.map_values(|z: usize| sphere_radius(z, scheme, measured@)),
{
    let mut r: Vec<SphereRadius> = Vec::new();
    let mut i: usize = 0;
    while i < zs.len()
        invariant
            i <= zs@.len(),
            r@.len() == i,
            forall|x: int|
                0 <= x < i ==> #[trigger] r@[x] == sphere_radius(zs@[x], scheme, measured@),
        decreases zs@.len() - i,
    {
        let z: usize = zs[i];
        let capped: usize = if z <= 102 {
            z
        } else {
            102
        };
        if matches!(scheme, SmdCavityRadii::BondiUff) && natcnv(z) == 0 && z < measured.len()
            && measured[z].gt(Real { bits: 0 }) {
            r.push(SphereRadius::Measured(z));
        } else {
            r.push(SphereRadius::Bondi(bondi_radius(capped)));
        }
        i += 1;
    }
    assert(r@ =~= zs@.map_values(|z: usize| sphere_radius(z, scheme, measured@)));
    r
}

/// The solvent descriptors by role.
#[derive(Debug)]
pub struct SolventRoles<T> {
    pub acidity: T,
    pub basicity: T,
    pub aromaticity: T,
    pub surface_tension: T,
    pub halogenicity: T,
    pub refractive_index: T,
}

/// The descriptors by role.
pub open spec fn roles_of<T>(d: Seq<T>) -> SolventRoles<T> {
    SolventRoles {
        acidity: d[2],
        basicity: d[3],
        aromaticity: d[6],
        surface_tension: d[4],
        halogenicity: d[7],
        refractive_index: d[0],
    }
}

/// Picks the descriptors that a solvent other than water is parameterized by.
pub fn solvent_roles<T: Copy>(d: &[T; 8]) -> (r: SolventRoles<T>)
    ensures
        r == roles_of(d@),
{
    SolventRoles {
        acidity: d[2],
        basicity: d[3],
        aromaticity: d[6],
        surface_tension: d[4],
        halogenicity: d[7],
        refractive_index: d[0],
    }
}

/// The atom that row `l` of an area gradient belongs to: the centre for row zero, then
/// its neighbours.
pub open spec fn row_atom(k: int, neighbours: Seq<usize>, l: int) -> int {
    if l == 0 {
        k
    } else {
        neighbours[l - 1] as int
    }
}

/// Rows and atoms of an area gradient below row `l`, leaving out atoms that do not exist.
pub open spec fn gradient_rows(k: int, neighbours: Seq<usize>, natm: int, l: int) -> Seq<
    (int, int),
>
    decreases l,
{
    if l <= 0 {
        seq![]
    } else if row_atom(k, neighbours, l - 1) < natm {
        gradient_rows(k, neighbours, natm, l - 1).push((l - 1, row_atom(k, neighbours, l - 1)))
    } else {
        gradient_rows(k, neighbours, natm, l - 1)
    }
}

/// Where each row of the area gradient of atom `k` is added.
pub open spec fn scattered(k: int, neighbours: Seq<usize>, gradient_len: int, natm: int) -> Seq<
    (int, int),
> {
    if neighbours.len() == 0 || gradient_len < 3 * (neighbours.len() + 1) {
        seq![]
    } else {
        gradient_rows(k, neighbours, natm, (neighbours.len() + 1) as int)
    }
}

/// Where each row of the area gradient of atom `k` is added: nowhere when the atom has
/// no neighbour or the gradient is too short, otherwise one row for the atom itself and
/// one for each neighbour.
pub fn scatter_rows(k: usize, neighbours: &Vec<usize>, gradient_len: usize, natm: usize) -> (r: Vec<
    (usize, usize),
>)
    requires
        neighbours@.len() < usize::MAX / 3,
    ensures
        r@.map_values(|p: (usize, usize)| (p.0 as int, p.1 as int)) == scattered(
            k as int,
            neighbours@,
            gradient_len as int,
            natm as int,
        ),
{
    let mut r: Vec<(usize, usize)> = Vec::new();
    let n: usize = neighbours.len();
    let ghost pairs = |p: (usize, usize)| (p.0 as int, p.1 as int);
    assert(r@.map_values(pairs) =~= seq![]);
    if n == 0 || gradient_len < 3 * (n + 1) {
        return r;
    }
    let mut l: usize = 0;
    while l <= n
        invariant
            l <= n + 1,
            n == neighbours@.len(),
            n < usize::MAX / 3,
            pairs == (|p: (usize, usize)| (p.0 as int, p.1 as int)),
            r@.map_values(pairs) == gradient_rows(k as int, neighbours@, natm as int, l as int),
        decreases n + 1 - l,
    {
        let j: usize = if l == 0 {
            k
        } else {
            neighbours[l - 1]
        };
        if j < natm {
            let ghost before = r@;
            r.push((l, j));
            assert(r@.map_values(pairs) =~= before.map_values(pairs).push((l as int, j as int)));
        }
        l += 1;
    }
    r
}

/// The two numbers are `x` and `y`, in either order.
pub open spec fn joins(a: int, b: int, x: int, y: int) -> bool {
    (a == x && b == y) || (a == y && b == x)
}

/// Eleven elements have a class, each a class of its own: hydrogen, carbon, nitrogen, oxygen,
/// fluorine, sulfur, chlorine, bromine, phosphorus, iodine and silicon, in this order.
pub proof fn law_element_class(z: int)
    ensures
        0 <= element_class(z) <= 11,
        element_class(z) == 1 <==> z == 1,
        element_class(z) == 2 <==> z == 6,
        element_class(z) == 3 <==> z == 7,
        element_class(z) == 4 <==> z == 8,
        element_class(z) == 5 <==> z == 9,
        element_class(z) == 6 <==> z == 16,
        element_class(z) == 7 <==> z == 17,
        element_class(z) == 8 <==> z == 35,
        element_class(z) == 9 <==> z == 15,
        element_class(z) == 10 <==> z == 53,
        element_class(z) == 11 <==> z == 14,
{
}

/// Which pairs of elements are how long, whichever is named first: every length belongs to the
/// pairs listed with it and to no other, and any other pair has none.
pub proof fn law_element_bond(z: int, w: int)
    ensures
        ({
            let r = element_bond(z, w);
            &&& r == 1550 <==> joins(z, w, 1, 6) || joins(z, w, 1, 7) || joins(z, w, 1, 8)
            &&& r == 2140 <==> joins(z, w, 1, 16)
            &&& r == 1840 <==> joins(z, w, 6, 6) || joins(z, w, 6, 7) || joins(z, w, 6, 8) || joins(
                z,
                w,
                6,
                9,
            )
            &&& r == 2200 <==> joins(z, w, 6, 16) || joins(z, w, 6, 15)
            &&& r == 2300 <==> joins(z, w, 6, 35)
            &&& r == 2600 <==> joins(z, w, 6, 53)
            &&& r == 1850 <==> joins(z, w, 7, 7)
            &&& r == 1500 <==> joins(z, w, 7, 8)
            &&& r == 1710 <==> joins(z, w, 8, 16)
            &&& r == 2100 <==> joins(z, w, 6, 17) || joins(z, w, 8, 15) || joins(z, w, 8, 14)
            &&& r == 2500 <==> joins(z, w, 16, 15)
            &&& r == 2750 <==> joins(z, w, 8, 8) || joins(z, w, 16, 16)
            &&& r == 0 || r == 1550 || r == 2140 || r == 1840 || r == 2200 || r == 2300 || r == 2600
                || r == 1850 || r == 1500 || r == 1710 || r == 2100 || r == 2500 || r == 2750
        }),
{
}

/// The tensions in water, value by value: no other element and no other bond has one.
pub proof fn law_water_tensions(i: int)
    ensures
        sigma_aq(i) == 4869 <==> i == 1,
        sigma_aq(i) == 12974 <==> i == 6,
        sigma_aq(i) == 3818 <==> i == 9,
        sigma_aq(i) == -910 <==> i == 16,
        sigma_aq(i) == 982 <==> i == 17,
        sigma_aq(i) == -872 <==> i == 35,
        sigma_aq(i) == -7295 <==> i == 101,
        sigma_aq(i) == 6869 <==> i == 103,
        sigma_aq(i) == -4822 <==> i == 105,
        sigma_aq(i) == 12198 <==> i == 106,
        sigma_aq(i) == 6885 <==> i == 114,
        sigma_aq(i) == 8410 <==> i == 116,
        sigma_aq(i) == 0 <==> !(i == 1 || i == 6 || i == 9 || i == 16 || i == 17 || i == 35 || i
            == 101 || i == 103 || i == 105 || i == 106 || i == 114 || i == 116),
        hsigma_aq(i) == -6077 <==> i == 6,
        hsigma_aq(i) == 0 <==> i != 6,
{
}

/// The tensions in other solvents, value by value: no other element and no other bond has one.
pub proof fn law_other_tensions(i: int)
    ensures
        sigma_n(i) == 5810 <==> i == 6,
        sigma_n(i) == 3262 <==> i == 7,
        sigma_n(i) == -1756 <==> i == 8,
        sigma_n(i) == -1804 <==> i == 14,
        sigma_n(i) == -3317 <==> i == 16,
        sigma_n(i) == -2431 <==> i == 17,
        sigma_n(i) == -3542 <==> i == 35,
        sigma_n(i) == -6205 <==> i == 101,
        sigma_n(i) == -1570 <==> i == 103,
        sigma_n(i) == -9976 <==> i == 110,
        sigma_n(i) == 0 <==> !(i == 6 || i == 7 || i == 8 || i == 14 || i == 16 || i == 17 || i == 35
            || i == 101 || i == 103 || i == 110),
        sigma_a(i) == 4810 <==> i == 6,
        sigma_a(i) == 19306 <==> i == 8,
        sigma_a(i) == 9599 <==> i == 103,
        sigma_a(i) == -4100 <==> i == 105,
        sigma_a(i) == 15220 <==> i == 110,
        sigma_a(i) == 0 <==> !(i == 6 || i == 8 || i == 103 || i == 105 || i == 110),
        sigma_b(i) == 3287 <==> i == 6,
        sigma_b(i) == -4379 <==> i == 8,
        sigma_b(i) == -12816 <==> i == 104,
        sigma_b(i) == 7913 <==> i == 106,
        sigma_b(i) == 0 <==> !(i == 6 || i == 8 || i == 104 || i == 106),
        hsigma_n(i) == -3637 <==> i == 6,
        hsigma_n(i) == -1939 <==> i == 8,
        hsigma_n(i) == 0 <==> !(i == 6 || i == 8),
{
}

/// Bondi radii by size: each belongs to the elements listed with it and to no other. Elements
/// up to xenon have one, and nothing else has.
pub proof fn law_bondi(z: int)
    ensures
        bondi(z) == 120 <==> z == 1,
        bondi(z) == 140 <==> z == 2,
        bondi(z) == 147 <==> z == 9,
        bondi(z) == 152 <==> z == 8,
        bondi(z) == 153 <==> z == 4,
        bondi(z) == 154 <==> z == 10,
        bondi(z) == 155 <==> z == 7,
        bondi(z) == 170 <==> z == 6,
        bondi(z) == 173 <==> z == 12,
        bondi(z) == 175 <==> z == 17,
        bondi(z) == 179 <==> z == 23,
        bondi(z) == 180 <==> z == 15 || z == 16,
        bondi(z) == 182 <==> z == 3,
        bondi(z) == 184 <==> z == 13 || z == 28,
        bondi(z) == 185 <==> z == 33 || z == 35,
        bondi(z) == 186 <==> z == 29 || z == 40,
        bondi(z) == 187 <==> z == 22 || z == 31,
        bondi(z) == 188 <==> z == 18,
        bondi(z) == 189 <==> z == 24,
        bondi(z) == 190 <==> z == 34,
        bondi(z) == 192 <==> z == 5 || z == 27,
        bondi(z) == 193 <==> z == 49,
        bondi(z) == 194 <==> z == 26,
        bondi(z) == 195 <==> z == 45,
        bondi(z) == 197 <==> z == 25,
        bondi(z) == 198 <==> z == 53,
        bondi(z) == 202 <==> z == 36 || z == 46,
        bondi(z) == 203 <==> z == 47,
        bondi(z) == 206 <==> z == 51 || z == 52,
        bondi(z) == 207 <==> z == 41 || z == 44,
        bondi(z) == 209 <==> z == 42 || z == 43,
        bondi(z) == 210 <==> z == 14 || z == 30,
        bondi(z) == 211 <==> z == 32,
        bondi(z) == 216 <==> z == 21 || z == 54,
        bondi(z) == 217 <==> z == 50,
        bondi(z) == 219 <==> z == 39,
        bondi(z) == 227 <==> z == 11,
        bondi(z) == 230 <==> z == 48,
        bondi(z) == 231 <==> z == 20,
        bondi(z) == 249 <==> z == 38,
        bondi(z) == 275 <==> z == 19,
        bondi(z) == 303 <==> z == 37,
        bondi(z) == 0 <==> !(1 <= z <= 54),
{
}

/// Each entry of the tension tables corrects one kind of atom by one kind of partner, and both
/// atomic numbers decide which: 101 carbon by carbon, 103 oxygen by carbon, 104 oxygen by
/// oxygen, 106 oxygen by nitrogen, 114 oxygen by phosphorus, 116 nitrogen by carbon. Hydrogen
/// is corrected by its partner's own entry. No family corrects any other pair.
pub proof fn law_correction_of_pair(family: BondFamily, z: int, w: int, atom: usize, partner: usize)
    ensures
        ({
            let r = correction(family, z, w, atom as int, partner as int);
            let bond = |t: usize| r is Some && (r->0).tension == Tension::Bond(t);
            &&& bond(101) <==> family == BondFamily::CarbonCarbon && z == 6 && w == 6
            &&& bond(103) <==> family == BondFamily::OxygenAny && z == 8 && w == 6
            &&& bond(104) <==> family == BondFamily::OxygenAny && z == 8 && w == 8
            &&& bond(106) <==> family == BondFamily::OxygenAny && z == 8 && w == 7
            &&& bond(114) <==> family == BondFamily::OxygenAny && z == 8 && w == 15
            &&& bond(116) <==> family == BondFamily::NitrogenTriple && z == 7 && w == 6
            &&& 0 <= w ==> (r is Some && (r->0).tension == Tension::Hydrogen(w as usize) <==> family
                == BondFamily::HydrogenAny && z == 1 && w <= 150)
            &&& r is Some ==> {
                ||| bond(101)
                ||| bond(103)
                ||| bond(104)
                ||| bond(106)
                ||| bond(114)
                ||| bond(116)
                ||| family == BondFamily::HydrogenAny
            }
            &&& r is Some ==> (r->0).atom == atom && (r->0).partner == partner
        }),
{
}

/// The length and the width of every correction, in thousandths: 1.84 with 0.30 for two
/// carbons, 1.33 with 0.10 for carbon at oxygen, 1.225 with 0.065 for the triple bond, 1.80
/// with 0.30 for two oxygens, and otherwise the length of the two elements with 0.30.
pub proof fn law_correction_length(family: BondFamily, z: int, w: int, atom: int, partner: int)
    requires
        correction(family, z, w, atom, partner) is Some,
    ensures
        ({
            let c = correction(family, z, w, atom, partner)->0;
            &&& z == 6 ==> c.length == 1840 && c.width == 300
            &&& z == 7 ==> c.length == 1225 && c.width == 65
            &&& z == 8 && w == 6 ==> c.length == 1330 && c.width == 100
            &&& z == 8 && w == 7 ==> c.length == 1500 && c.width == 300
            &&& z == 8 && w == 8 ==> c.length == 1800 && c.width == 300
            &&& z == 8 && w == 15 ==> c.length == 2100 && c.width == 300
            &&& z == 1 ==> c.width == 300
            &&& z == 1 && (w == 6 || w == 7 || w == 8) ==> c.length == 1550
            &&& z == 1 && w == 16 ==> c.length == 2140
            &&& z == 1 && !(w == 6 || w == 7 || w == 8 || w == 16) ==> c.length == 0
            &&& z == 1 || z == 6 || z == 7 || z == 8
        }),
{
}

/// Of a whole molecule: each ordered pair of different carbons is corrected by table entry 101
/// with length 1.84 and width 0.30, by the carbon family and by nothing else.
pub proof fn law_carbons_corrected(zs: Seq<usize>, c: BondCorrection)
    requires
        zs.len() <= usize::MAX,
    ensures
        family_corrections(BondFamily::CarbonCarbon, zs, zs.len() as int).contains(c) <==> {
            &&& c.atom < zs.len() && c.partner < zs.len() && c.atom != c.partner
            &&& zs[c.atom as int] == 6 && zs[c.partner as int] == 6
            &&& c.tension == Tension::Bond(101) && c.length == 1840 && c.width == 300
        },
{
    law_corrections_listed(BondFamily::CarbonCarbon, zs, c);
}

/// Of a whole molecule: table entry 103 corrects each oxygen by each carbon, with length 1.33
/// and width 0.10, and corrects nothing else; whatever else the oxygen family lists corrects
/// an oxygen by a nitrogen, a phosphorus or another oxygen.
pub proof fn law_oxygens_corrected(zs: Seq<usize>, c: BondCorrection)
    requires
        zs.len() <= usize::MAX,
    ensures
        family_corrections(BondFamily::OxygenAny, zs, zs.len() as int).contains(c) <==> {
            &&& c.atom < zs.len() && c.partner < zs.len() && c.atom != c.partner
            &&& zs[c.atom as int] == 8
            &&& {
                let w = zs[c.partner as int];
                ||| w == 6 && c.tension == Tension::Bond(103) && c.length == 1330 && c.width == 100
                ||| w == 7 && c.tension == Tension::Bond(106) && c.length == 1500 && c.width == 300
                ||| w == 8 && c.tension == Tension::Bond(104) && c.length == 1800 && c.width == 300
                ||| w == 15 && c.tension == Tension::Bond(114) && c.length == 2100 && c.width == 300
            }
        },
{
    law_corrections_listed(BondFamily::OxygenAny, zs, c);
}

/// Of a whole molecule: table entry 116 corrects each nitrogen by each carbon at the distance
/// of a triple bond, and corrects nothing else.
pub proof fn law_triple_bonds_corrected(zs: Seq<usize>, c: BondCorrection)
    requires
        zs.len() <= usize::MAX,
    ensures
        family_corrections(BondFamily::NitrogenTriple, zs, zs.len() as int).contains(c) <==> {
            &&& c.atom < zs.len() && c.partner < zs.len() && c.atom != c.partner
            &&& zs[c.atom as int] == 7 && zs[c.partner as int] == 6
            &&& c.tension == Tension::Bond(116) && c.length == 1225 && c.width == 65
        },
{
    law_corrections_listed(BondFamily::NitrogenTriple, zs, c);
}

/// Of a whole molecule: each hydrogen is corrected by each other atom that the tables know,
/// by the entry of that atom's element, and by no atom beyond the tables.
pub proof fn law_hydrogens_corrected(zs: Seq<usize>, c: BondCorrection)
    requires
        zs.len() <= usize::MAX,
    ensures
        family_corrections(BondFamily::HydrogenAny, zs, zs.len() as int).contains(c) <==> {
            &&& c.atom < zs.len() && c.partner < zs.len() && c.atom != c.partner
            &&& zs[c.atom as int] == 1 && zs[c.partner as int] <= 150
            &&& c.tension == Tension::Hydrogen(zs[c.partner as int])
            &&& c.length == element_bond(zs[c.partner as int] as int, 1) && c.width == 300
        },
{
    law_corrections_listed(BondFamily::HydrogenAny, zs, c);
    if c.partner < zs.len() {
        law_bond_length(1, element_class(zs[c.partner as int] as int));
    }
}

/// A corrected pair is corrected once.
pub proof fn law_corrected_once(family: BondFamily, zs: Seq<usize>, a: int, b: int)
    requires
        zs.len() <= usize::MAX,
        0 <= a < family_corrections(family, zs, zs.len() as int).len(),
        0 <= b < family_corrections(family, zs, zs.len() as int).len(),
        ({
            let r = family_corrections(family, zs, zs.len() as int);
            r[a].atom == r[b].atom && r[a].partner == r[b].partner
        }),
    ensures
        a == b,
{
    lemma_family_order(family, zs, zs.len() as int, a, b);
    lemma_family_order(family, zs, zs.len() as int, b, a);
}

proof fn lemma_atom_order(family: BondFamily, zs: Seq<usize>, i: int, j: int, a: int, b: int)
    requires
        0 <= i < zs.len() <= usize::MAX,
        0 <= j <= zs.len(),
        0 <= a < b < atom_corrections(family, zs, i, j).len(),
    ensures
        ({
            let r = atom_corrections(family, zs, i, j);
            &&& r[a].atom == i && r[b].atom == i
            &&& r[a].partner < r[b].partner < j
        }),
    decreases j,
{
    let earlier = atom_corrections(family, zs, i, j - 1);
    lemma_atom_bounds(family, zs, i, j - 1);
    if b < earlier.len() {
        lemma_atom_order(family, zs, i, j - 1, a, b);
    } else {
        assert(earlier[a].partner < j - 1);
    }
}

proof fn lemma_atom_bounds(family: BondFamily, zs: Seq<usize>, i: int, j: int)
    requires
        0 <= i < zs.len() <= usize::MAX,
        j <= zs.len(),
    ensures
        forall|a: int|
            0 <= a < atom_corrections(family, zs, i, j).len() ==> (#[trigger] atom_corrections(
                family,
                zs,
                i,
                j,
            )[a]).atom == i && atom_corrections(family, zs, i, j)[a].partner < j,
    decreases j,
{
    if j > 0 {
        lemma_atom_bounds(family, zs, i, j - 1);
    }
}

proof fn lemma_family_bounds(family: BondFamily, zs: Seq<usize>, i: int)
    requires
        zs.len() <= usize::MAX,
        i <= zs.len(),
    ensures
        forall|a: int|
            0 <= a < family_corrections(family, zs, i).len() ==> (#[trigger] family_corrections(
                family,
                zs,
                i,
            )[a]).atom < i,
    decreases i,
{
    if i > 0 {
        lemma_family_bounds(family, zs, i - 1);
        lemma_atom_bounds(family, zs, i - 1, zs.len() as int);
        let (e, o) = (
            family_corrections(family, zs, i - 1),
            atom_corrections(family, zs, i - 1, zs.len() as int),
        );
        assert forall|a: int| 0 <= a < family_corrections(family, zs, i).len() implies (
        #[trigger] family_corrections(family, zs, i)[a]).atom < i by {
            if a < e.len() {
                assert(family_corrections(family, zs, i)[a] == e[a]);
            } else {
                assert(family_corrections(family, zs, i)[a] == o[a - e.len()]);
            }
        }
    }
}

proof fn lemma_family_order(family: BondFamily, zs: Seq<usize>, i: int, a: int, b: int)
    requires
        0 <= i <= zs.len() <= usize::MAX,
        0 <= a < family_corrections(family, zs, i).len(),
        0 <= b < family_corrections(family, zs, i).len(),
    ensures
        a < b ==> {
            let r = family_corrections(family, zs, i);
            r[a].atom < r[b].atom || (r[a].atom == r[b].atom && r[a].partner < r[b].partner)
        },
    decreases i,
{
    let (e, o) = (
        family_corrections(family, zs, i - 1),
        atom_corrections(family, zs, i - 1, zs.len() as int),
    );
    let r = family_corrections(family, zs, i);
    if i > 0 && a < b {
        lemma_family_bounds(family, zs, i - 1);
        lemma_atom_bounds(family, zs, i - 1, zs.len() as int);
        if b < e.len() {
            assert(r[a] == e[a] && r[b] == e[b]);
            lemma_family_order(family, zs, i - 1, a, b);
        } else if a < e.len() {
            assert(r[a] == e[a] && r[b] == o[b - e.len()]);
        } else {
            assert(r[a] == o[a - e.len()] && r[b] == o[b - e.len()]);
            lemma_atom_order(family, zs, i - 1, zs.len() as int, a - e.len(), b - e.len());
        }
    }
}

/// Only an element without parameters of its own takes a measured radius, only where measured
/// radii are asked for, and only a positive one. Every other sphere has the Bondi radius,
/// which heavy elements lack.
pub proof fn law_sphere_radius(z: usize, scheme: SmdCavityRadii, measured: Seq<Real>)
    ensures
        ({
            let s = sphere_radius(z, scheme, measured);
            let parameterized = z == 1 || (6 <= z <= 9) || (14 <= z <= 17) || z == 35 || z == 53;
            &&& s is Measured <==> scheme == SmdCavityRadii::BondiUff && !parameterized && z
                < measured.len() && crate::binary64::zero().below(measured[z as int])
            &&& s is Measured ==> s == SphereRadius::Measured(z)
            &&& !(s is Measured) && z <= 54 ==> s == SphereRadius::Bondi(bondi(z as int) as u32)
            &&& !(s is Measured) && z > 54 ==> s == SphereRadius::Bondi(0)
            &&& scheme == SmdCavityRadii::Bondi ==> s is Bondi
        }),
{
}

/// A gradient that is scattered at all has a row for the centre and one for each neighbour;
/// each is added to its own atom, in order, unless there is no such atom.
pub proof fn law_rows(k: int, neighbours: Seq<usize>, natm: int, l: int, row: int, atom: int)
    requires
        l <= neighbours.len() + 1,
    ensures
        gradient_rows(k, neighbours, natm, l).contains((row, atom)) <==> {
            &&& 0 <= row < l
            &&& atom < natm
            &&& row == 0 ==> atom == k
            &&& row > 0 ==> atom == neighbours[row - 1]
        },
    decreases l,
{
    let rows = gradient_rows(k, neighbours, natm, l);
    if l > 0 {
        law_rows(k, neighbours, natm, l - 1, row, atom);
        let earlier = gradient_rows(k, neighbours, natm, l - 1);
        if row_atom(k, neighbours, l - 1) < natm {
            assert(rows[rows.len() - 1] == (l - 1, row_atom(k, neighbours, l - 1)));
            if earlier.contains((row, atom)) {
                let x = choose|x: int| 0 <= x < earlier.len() && earlier[x] == (row, atom);
                assert(rows[x] == (row, atom));
            }
            if rows.contains((row, atom)) && (row, atom) != (l - 1, row_atom(k, neighbours, l - 1)) {
                let x = choose|x: int| 0 <= x < rows.len() && rows[x] == (row, atom);
                assert(earlier[x] == (row, atom));
            }
        }
    }
}

/// A gradient is scattered exactly when its atom has a neighbour and it has three components
/// for the atom and for each neighbour.
pub proof fn law_scattered(k: int, neighbours: Seq<usize>, gradient_len: int, natm: int)
    requires
        0 <= k < natm,
    ensures
        scattered(k, neighbours, gradient_len, natm).contains((0int, k)) <==> neighbours.len() > 0
            && gradient_len >= 3 + 3 * neighbours.len(),
        scattered(k, neighbours, gradient_len, natm).len() > 0 ==> scattered(
            k,
            neighbours,
            gradient_len,
            natm,
        ) == gradient_rows(k, neighbours, natm, (neighbours.len() + 1) as int),
{
    law_rows(k, neighbours, natm, (neighbours.len() + 1) as int, 0, k);
}

/// Descriptors come in the order refractive index, index at 25 degrees, acidity, basicity, surface
/// tension, dielectric constant, aromatic fraction, halogen fraction.
pub proof fn law_roles<T>(n: T, n25: T, a: T, b: T, gamma: T, epsilon: T, phi: T, psi: T)
    ensures
        ({
            let r = roles_of(seq![n, n25, a, b, gamma, epsilon, phi, psi]);
            &&& r.refractive_index == n
            &&& r.acidity == a
            &&& r.basicity == b
            &&& r.surface_tension == gamma
            &&& r.aromaticity == phi
            &&& r.halogenicity == psi
        }),
{
}

} // verus!
