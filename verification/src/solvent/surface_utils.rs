//! Cavity surfaces: radii, the points kept on each atomic sphere, and the row
//! exchanges of linear solves.

use crate::binary64::Real;
use crate::keywords::{ascii_upper, is_word, reads, unknown_keyword, upper, uppercase};
use crate::sequences::tiles;
use crate::solvent::method::SurfaceSwitchType;
use vstd::prelude::*;
use vstd::utf8::is_ascii_chars;

verus! {

/// Radii for the cavity of a continuum model.
#[derive(Clone, Copy, Debug, PartialEq, Eq, Structural)]
pub enum RadiusScheme {
    Bondi,
    UFF,
}

/// The pattern of 1.2, the scale factor of Bondi radii.
pub const BONDI_SCALE: u64 = 0x3ff3_3333_3333_3333;

/// The pattern of 1.1, the scale factor of force-field radii.
pub const UFF_SCALE: u64 = 0x3ff1_9999_9999_999a;

/// The default scale factor of a scheme.
pub open spec fn default_scale(s: RadiusScheme) -> Real {
    match s {
        RadiusScheme::Bondi => Real { bits: BONDI_SCALE },
        RadiusScheme::UFF => Real { bits: UFF_SCALE },
    }
}

/// The scale factor in use: the given one, or the default of the scheme.
pub open spec fn scale_in_use(given: Option<Real>, s: RadiusScheme) -> Real {
    match given {
        Some(x) => x,
        None => default_scale(s),
    }
}

/// The name of a scheme.
pub open spec fn scheme_name(s: RadiusScheme) -> Seq<char> {
    match s {
        RadiusScheme::Bondi => "Bondi"@,
        RadiusScheme::UFF => "UFF"@,
    }
}

/// The scheme that an upper-case keyword selects.
pub open spec fn scheme_of(keyword: Seq<char>) -> Option<RadiusScheme> {
    if keyword == "BONDI"@ {
        Some(RadiusScheme::Bondi)
    } else if keyword == "UFF"@ {
        Some(RadiusScheme::UFF)
    } else {
        None
    }
}

impl Default for RadiusScheme {
    fn default() -> (s: RadiusScheme)
        ensures
            s == RadiusScheme::UFF,
    {
        RadiusScheme::UFF
    }
}

impl RadiusScheme {
    /// The default scale factor of the scheme.
    pub fn default_vdw_scale(&self) -> (r: Real)
        ensures
            r == default_scale(*self),
    {
        match self {
            RadiusScheme::Bondi => Real { bits: BONDI_SCALE },
            RadiusScheme::UFF => Real { bits: UFF_SCALE },
        }
    }

    /// The name of the scheme.
    pub fn name(&self) -> (s: String)
        ensures
            s@ == scheme_name(*self),
    {
        let word: &str = match self {
            RadiusScheme::Bondi => "Bondi",
            RadiusScheme::UFF => "UFF",
        };
        word.to_owned()
    }

    /// The scheme that an upper-case keyword selects.
    pub fn from_keyword(keyword: &String) -> (r: Option<RadiusScheme>)
        ensures
            r == scheme_of(keyword@),
    {
        if is_word(keyword, "BONDI") {
            Some(RadiusScheme::Bondi)
        } else if is_word(keyword, "UFF") {
            Some(RadiusScheme::UFF)
        } else {
            None
        }
    }

    /// Reads a scheme from the input, in any case of letters.
    pub fn parse(s: &str) -> (r: Result<RadiusScheme, String>)
        ensures
            reads(scheme_of(upper(s@)), "Unknown RadiusScheme: "@, s@, r),
            is_ascii_chars(s@) ==> reads(scheme_of(ascii_upper(s@)), "Unknown RadiusScheme: "@, s@, r),
    {
        match RadiusScheme::from_keyword(&uppercase(s)) {
            Some(m) => Ok(m),
            None => Err(unknown_keyword("Unknown RadiusScheme: ", s)),
        }
    }

    /// Which radius an atom gets before scaling: the tabulated one, except that
    /// hydrogen has its own under the Bondi scheme.
    pub fn base_radius(&self, z: usize) -> (r: BaseRadius)
        ensures
            r == base_of(*self, z),
    {
        match self {
            RadiusScheme::Bondi => if z == 1 {
                BaseRadius::BondiHydrogen(Real { bits: BONDI_HYDROGEN })
            } else {
                BaseRadius::Table(z)
            },
            RadiusScheme::UFF => BaseRadius::Table(z),
        }
    }
}

/// Reading the name of a scheme, or any text that differs from it in the case of its ASCII
/// letters, gives the scheme back.
pub proof fn law_scheme_name(m: RadiusScheme, s: Seq<char>)
    requires
        is_ascii_chars(s),
        ascii_upper(s) == ascii_upper(scheme_name(m)),
    ensures
        scheme_of(ascii_upper(s)) == Some(m),
{
    reveal_strlit("Bondi");
    reveal_strlit("BONDI");
    reveal_strlit("UFF");
    match m {
        RadiusScheme::Bondi => assert(ascii_upper("Bondi"@) =~= "BONDI"@),
        RadiusScheme::UFF => assert(ascii_upper("UFF"@) =~= "UFF"@),
    }
    assert("UFF"@.len() == 3 && "BONDI"@.len() == 5);
}

/// The pattern of 2.0786987370215684, the Bondi radius of hydrogen in Bohr: 1.1 angstrom.
pub const BONDI_HYDROGEN: u64 = 0x4000_a12c_cdad_f400;

/// Which radius an atom gets before scaling.
pub open spec fn base_of(s: RadiusScheme, z: usize) -> BaseRadius {
    if z == 1 && s == RadiusScheme::Bondi {
        BaseRadius::BondiHydrogen(Real { bits: BONDI_HYDROGEN })
    } else {
        BaseRadius::Table(z)
    }
}

/// Where the radii of a cavity come from.
#[derive(Debug)]
pub enum RadiusSources {
    /// They are given; `complete` if there is one for every atom, without which no cavity is
    /// built.
    Given { complete: bool },
    /// They are made from these radii, each times the scale.
    Scaled { bases: Vec<BaseRadius>, scale: Real },
}

/// Where the unscaled radius of an atom comes from.
#[derive(Clone, Copy, Debug, PartialEq, Eq, Structural)]
pub enum BaseRadius {
    /// This radius in Bohr, in place of the tabulated one of hydrogen.
    BondiHydrogen(Real),
    /// The scheme's table at this atomic number.
    Table(usize),
}

/// Radii for the surface-tension terms.
#[derive(Clone, Copy, Debug, PartialEq, Eq, Structural)]
pub enum SmdCavityRadii {
    Bondi,
    /// Elements without intrinsic radii take measured ones.
    BondiUff,
}

/// The choice that an upper-case keyword selects.
pub open spec fn cavity_of(keyword: Seq<char>) -> Option<SmdCavityRadii> {
    if keyword == "BONDI"@ {
        Some(SmdCavityRadii::Bondi)
    } else if keyword == "UFF_MIXED"@ {
        Some(SmdCavityRadii::BondiUff)
    } else {
        None
    }
}

impl Default for SmdCavityRadii {
    fn default() -> (s: SmdCavityRadii)
        ensures
            s == SmdCavityRadii::Bondi,
    {
        SmdCavityRadii::Bondi
    }
}

impl SmdCavityRadii {
    /// The choice that an upper-case keyword selects.
    pub fn from_keyword(keyword: &String) -> (r: Option<SmdCavityRadii>)
        ensures
            r == cavity_of(keyword@),
    {
        if is_word(keyword, "BONDI") {
            Some(SmdCavityRadii::Bondi)
        } else if is_word(keyword, "UFF_MIXED") {
            Some(SmdCavityRadii::BondiUff)
        } else {
            None
        }
    }

    /// Reads a choice from the input, in any case of letters.
    pub fn parse(s: &str) -> (r: Result<SmdCavityRadii, String>)
        ensures
            reads(cavity_of(upper(s@)), "Unknown SmdCavityRadii: "@, s@, r),
            is_ascii_chars(s@) ==> reads(cavity_of(ascii_upper(s@)), "Unknown SmdCavityRadii: "@, s@, r),
    {
        match SmdCavityRadii::from_keyword(&uppercase(s)) {
            Some(m) => Ok(m),
            None => Err(unknown_keyword("Unknown SmdCavityRadii: ", s)),
        }
    }
}

/// Where the cavity radius of an atom comes from.
#[derive(Clone, Copy, Debug, PartialEq, Eq, Structural)]
pub enum SmdRadius {
    /// The oxygen radius: `base` hundredths of an angstrom, plus `slope` hundredths for each
    /// unit by which the solvent's acidity falls short of `acidity`.
    Oxygen { base: u32, slope: u32, acidity: Real },
    /// A fixed radius in hundredths of an angstrom.
    Intrinsic(u32),
    /// The mixed van der Waals table at this atomic number.
    Vdw(usize),
    /// The table of measured radii at this atomic number.
    Measured(usize),
}

/// The pattern of 0.43, the acidity from which on oxygen has its smallest radius.
pub const OXYGEN_ACIDITY: u64 = 0x3fdb_851e_b851_eb85;

/// Intrinsic radii in hundredths of an angstrom; zero where there is none.
pub open spec fn intrinsic_radius(z: int) -> int {
    if z == 1 {
        120
    } else if z == 6 {
        185
    } else if z == 7 {
        189
    } else if z == 9 {
        173
    } else if z == 14 {
        247
    } else if z == 15 {
        212
    } else if z == 16 {
        249
    } else if z == 17 {
        238
    } else if z == 35 {
        260
    } else if z == 53 {
        274
    } else {
        0
    }
}

/// The smallest oxygen radius in hundredths of an angstrom.
pub const OXYGEN_BASE: u32 = 152;

/// How much the oxygen radius grows, in hundredths of an angstrom per unit of acidity.
pub const OXYGEN_SLOPE: u32 = 180;

/// The oxygen radius in a solvent of hydrogen-bond acidity `alpha`.
pub open spec fn oxygen_radius(alpha: Real) -> SmdRadius {
    SmdRadius::Oxygen {
        base: OXYGEN_BASE,
        slope: if (Real { bits: OXYGEN_ACIDITY }).at_most(alpha) {
            0
        } else {
            OXYGEN_SLOPE
        },
        acidity: Real { bits: OXYGEN_ACIDITY },
    }
}

/// The cavity radius of one atom; `measured` holds the measured radii by atomic number,
/// zero where there is none.
pub open spec fn smd_radius(
    alpha: Real,
    z: usize,
    scheme: SmdCavityRadii,
    measured: Seq<Real>,
) -> SmdRadius {
    if z == 8 {
        oxygen_radius(alpha)
    } else if intrinsic_radius(z as int) > 0 {
        SmdRadius::Intrinsic(intrinsic_radius(z as int) as u32)
    } else if scheme == SmdCavityRadii::BondiUff && z < measured.len() && crate::binary64::zero().below(
        measured[z as int],
    ) {
        SmdRadius::Measured(z)
    } else {
        SmdRadius::Vdw(z)
    }
}

/// The cavity radii of all atoms in a solvent of hydrogen-bond acidity `alpha`.
pub fn smd_radii(
    alpha: Real,
    atomic_numbers: &Vec<usize>,
    scheme: SmdCavityRadii,
    measured: &Vec<Real>,
) -> (r: Vec<SmdRadius>)
    ensures
        r@ == atomic_numbers@.map_values(|z: usize| smd_radius(alpha, z, scheme, measured@)),
{
    let acidity = Real { bits: OXYGEN_ACIDITY };
    let slope: u32 = if alpha.ge(acidity) {
        0
    } else {
        OXYGEN_SLOPE
    };
    let mut r: Vec<SmdRadius> = Vec::new();
    let mut i: usize = 0;
    while i < atomic_numbers.len()
        invariant
            i <= atomic_numbers@.len(),
            oxygen_radius(alpha) == (SmdRadius::Oxygen {
                base: OXYGEN_BASE,
                slope,
                acidity,
            }),
            r@.len() == i,
            forall|x: int|
                0 <= x < i ==> #[trigger] r@[x] == smd_radius(
                    alpha,
                    atomic_numbers@[x],
                    scheme,
                    measured@,
                ),
        decreases atomic_numbers@.len() - i,
    {
        let z: usize = atomic_numbers[i];
        let fixed: u32 = match z {
            1 => 120,
            6 => 185,
            7 => 189,
            9 => 173,
            14 => 247,
            15 => 212,
            16 => 249,
            17 => 238,
            35 => 260,
            53 => 274,
            _ => 0,
        };
        if z == 8 {
            r.push(SmdRadius::Oxygen { base: OXYGEN_BASE, slope, acidity });
        } else if fixed > 0 {
            r.push(SmdRadius::Intrinsic(fixed));
        } else if matches!(scheme, SmdCavityRadii::BondiUff) && z < measured.len()
            && measured[z].gt(Real { bits: 0 }) {
            r.push(SmdRadius::Measured(z));
        } else {
            r.push(SmdRadius::Vdw(z));
        }
        i += 1;
    }
    assert(r@ =~= atomic_numbers@.map_values(
        |z: usize| smd_radius(alpha, z, scheme, measured@),
    ));
    r
}

/// Settings of a cavity surface.
#[derive(Debug)]
pub struct SurfaceVdwGaussianCfg {
    pub lebedev_degree: usize,
    pub atom_radii: Option<Vec<Real>>,
    pub radius_scheme: RadiusScheme,
    /// `None` stands for the default scale of the scheme.
    pub vdw_scale: Option<Real>,
    pub switch_type: SurfaceSwitchType,
}

impl Default for SurfaceVdwGaussianCfg {
    fn default() -> (c: SurfaceVdwGaussianCfg)
        ensures
            c.lebedev_degree == 302,
            c.atom_radii is None,
            c.radius_scheme == RadiusScheme::UFF,
            c.vdw_scale is None,
            c.switch_type == SurfaceSwitchType::ISWIG,
    {
        SurfaceVdwGaussianCfg::new(RadiusScheme::UFF)
    }
}

impl SurfaceVdwGaussianCfg {
    /// The scale factor in use: the given one, or the default of the scheme.
    pub fn effective_vdw_scale(&self) -> (r: Real)
        ensures
            r == scale_in_use(self.vdw_scale, self.radius_scheme),
    {
        match self.vdw_scale {
            Some(s) => s,
            None => self.radius_scheme.default_vdw_scale(),
        }
    }

    /// Where the radii of the atoms come from.
    pub fn radius_sources(&self, atomic_num: &Vec<usize>) -> (r: RadiusSources)
        ensures
            match self.atom_radii {
                Some(v) => r == (RadiusSources::Given { complete: v@.len() == atomic_num@.len() }),
                None => r matches RadiusSources::Scaled { bases, scale } && bases@
                    == atomic_num@.map_values(|z: usize| base_of(self.radius_scheme, z)) && scale
                    == scale_in_use(self.vdw_scale, self.radius_scheme),
            },
    {
        match &self.atom_radii {
            Some(v) => RadiusSources::Given { complete: v.len() == atomic_num.len() },
            None => {
                let mut bases: Vec<BaseRadius> = Vec::new();
                let mut i: usize = 0;
                while i < atomic_num.len()
                    invariant
                        i <= atomic_num@.len(),
                        bases@.len() == i,
                        forall|x: int|
                            0 <= x < i ==> #[trigger] bases@[x] == base_of(
                                self.radius_scheme,
                                atomic_num@[x],
                            ),
                    decreases atomic_num@.len() - i,
                {
                    bases.push(self.radius_scheme.base_radius(atomic_num[i]));
                    i += 1;
                }
                assert(bases@ =~= atomic_num@.map_values(
                    |z: usize| base_of(self.radius_scheme, z),
                ));
                RadiusSources::Scaled { bases, scale: self.effective_vdw_scale() }
            },
        }
    }

    /// Default settings with the given radii.
    pub fn new(radius_scheme: RadiusScheme) -> (c: SurfaceVdwGaussianCfg)
        ensures
            c.lebedev_degree == 302,
            c.atom_radii is None,
            c.radius_scheme == radius_scheme,
            c.vdw_scale is None,
            c.switch_type == SurfaceSwitchType::ISWIG,
    {
        SurfaceVdwGaussianCfg {
            lebedev_degree: 302,
            atom_radii: None,
            radius_scheme,
            vdw_scale: None,
            switch_type: SurfaceSwitchType::ISWIG,
        }
    }
}

/// The entries of `data` whose mask is not zero; entries beyond the shorter of the two
/// lists are left out.
pub open spec fn selected<T>(data: Seq<T>, mask: Seq<usize>, n: int) -> Seq<T>
    decreases n,
{
    if n <= 0 {
        seq![]
    } else if mask[n - 1] != 0 {
        selected(data, mask, n - 1).push(data[n - 1])
    } else {
        selected(data, mask, n - 1)
    }
}

/// The number of entries that both lists have.
pub open spec fn common_len(a: nat, b: nat) -> int {
    if a <= b {
        a as int
    } else {
        b as int
    }
}

/// The number of non-zero entries among the first `n` of a mask.
pub open spec fn mask_count(mask: Seq<usize>, n: int) -> nat
    decreases n,
{
    if n <= 0 {
        0
    } else {
        mask_count(mask, n - 1) + (if mask[n - 1] != 0 { 1nat } else { 0 })
    }
}

/// A selection holds one entry for each non-zero mask entry.
pub proof fn law_selected_len<T>(data: Seq<T>, mask: Seq<usize>, n: int)
    ensures
        selected(data, mask, n).len() == mask_count(mask, n),
        n >= 0 ==> mask_count(mask, n) <= n,
    decreases n,
{
    if n > 0 {
        law_selected_len(data, mask, n - 1);
    }
}

/// Appends the entries of `data` whose mask is not zero.
fn select_into<T: Copy>(out: &mut Vec<T>, data: &Vec<T>, mask: &Vec<usize>)
    ensures
        final(out)@ == old(out)@ + selected(
            data@,
            mask@,
            common_len(data@.len(), mask@.len()),
        ),
{
    let n: usize = if data.len() <= mask.len() {
        data.len()
    } else {
        mask.len()
    };
    let mut i: usize = 0;
    assert(out@ =~= old(out)@ + selected(data@, mask@, 0));
    while i < n
        invariant
            i <= n,
            n == common_len(data@.len(), mask@.len()),
            out@ == old(out)@ + selected(data@, mask@, i as int),
        decreases n - i,
    {
        if mask[i] != 0 {
            out.push(data[i]);
        }
        i += 1;
        assert(out@ =~= old(out)@ + selected(data@, mask@, i as int));
    }
}

/// The entries of `data` whose mask is not zero.
pub fn bool_select<T: Copy>(data: &Vec<T>, mask: &Vec<usize>) -> (r: Vec<T>)
    ensures
        r@ == selected(data@, mask@, common_len(data@.len(), mask@.len())),
{
    let mut r: Vec<T> = Vec::new();
    select_into(&mut r, data, mask);
    assert(r@ =~= selected(data@, mask@, common_len(data@.len(), mask@.len())));
    r
}

/// Appends `n` copies of a value.
fn repeat_into(out: &mut Vec<Real>, x: Real, n: usize)
    ensures
        final(out)@ == old(out)@ + Seq::new(n as nat, |i: int| x),
{
    let mut k: usize = 0;
    assert(out@ =~= old(out)@ + Seq::new(0, |i: int| x));
    while k < n
        invariant
            k <= n,
            out@ == old(out)@ + Seq::new(k as nat, |i: int| x),
        decreases n - k,
    {
        out.push(x);
        k += 1;
        assert(out@ =~= old(out)@ + Seq::new(k as nat, |i: int| x));
    }
}

/// The pattern of 1e-16, the smallest weight of a kept point.
pub const POINT_THRESHOLD: u64 = 0x3c9c_d2b2_97d8_89bc;

/// Whether a point with this product of weight and switching value is kept.
pub open spec fn kept(product: Real) -> bool {
    (Real { bits: POINT_THRESHOLD }).below(product)
}

/// The mask of the kept points.
pub open spec fn kept_mask(products: Seq<Real>) -> Seq<usize> {
    products.map_values(
        |p: Real|
            if kept(p) {
                1usize
            } else {
                0usize
            },
    )
}

/// Marks the points whose product of weight and switching value is large enough.
pub fn kept_points(products: &Vec<Real>) -> (mask: Vec<usize>)
    ensures
        mask@ == kept_mask(products@),
{
    let mut mask: Vec<usize> = Vec::new();
    let mut i: usize = 0;
    while i < products.len()
        invariant
            i <= products@.len(),
            mask@.len() == i,
            forall|x: int| 0 <= x < i ==> #[trigger] mask@[x] == kept_mask(products@)[x],
        decreases products@.len() - i,
    {
        if products[i].gt(Real { bits: POINT_THRESHOLD }) {
            mask.push(1);
        } else {
            mask.push(0);
        }
        i += 1;
    }
    assert(mask@ =~= kept_mask(products@));
    mask
}

/// Points of a cavity surface.
#[allow(non_snake_case)]
pub struct SurfaceCalc {
    pub grid_coords: Vec<[Real; 3]>,
    pub weights: Vec<Real>,
    pub switch_fun: Vec<Real>,
    pub norm_vec: Vec<[Real; 3]>,
    pub charge_exp: Vec<Real>,
    pub R_vdw: Vec<Real>,
    pub area: Vec<Real>,
}

impl SurfaceCalc {
    /// The number of points.
    pub open spec fn points(&self) -> nat {
        self.weights@.len()
    }

    /// Every list has one entry per point.
    pub open spec fn wf(&self) -> bool {
        &&& self.grid_coords@.len() == self.points()
        &&& self.switch_fun@.len() == self.points()
        &&& self.norm_vec@.len() == self.points()
        &&& self.charge_exp@.len() == self.points()
        &&& self.R_vdw@.len() == self.points()
        &&& self.area@.len() == self.points()
    }

    /// A surface without points.
    pub fn new() -> (s: SurfaceCalc)
        ensures
            s.wf(),
            s.points() == 0,
    {
        SurfaceCalc {
            grid_coords: Vec::new(),
            weights: Vec::new(),
            switch_fun: Vec::new(),
            norm_vec: Vec::new(),
            charge_exp: Vec::new(),
            R_vdw: Vec::new(),
            area: Vec::new(),
        }
    }
}

/// The quadrature points of one atomic sphere before selection.
pub struct AtomSphere {
    pub radius: Real,
    pub points: Vec<[Real; 3]>,
    pub weights: Vec<Real>,
    pub switches: Vec<Real>,
    pub normals: Vec<[Real; 3]>,
    pub exponents: Vec<Real>,
    pub areas: Vec<Real>,
    /// Weight times switching value.
    pub products: Vec<Real>,
}

impl AtomSphere {
    /// Every list has one entry per point.
    pub open spec fn wf(&self) -> bool {
        let n = self.products@.len();
        &&& self.points@.len() == n
        &&& self.weights@.len() == n
        &&& self.switches@.len() == n
        &&& self.normals@.len() == n
        &&& self.exponents@.len() == n
        &&& self.areas@.len() == n
    }

    /// The number of points that are kept.
    pub open spec fn kept_count(&self) -> nat {
        mask_count(kept_mask(self.products@), self.products@.len() as int)
    }
}

/// The kept entries of one of an atom's lists.
pub open spec fn kept_entries<T>(data: Seq<T>, products: Seq<Real>) -> Seq<T> {
    selected(data, kept_mask(products), products.len() as int)
}

/// A cavity surface, with the range of points that belongs to each atom.
pub struct SurfaceVdwGaussian {
    pub surface_calc: SurfaceCalc,
    pub gslice_by_atom: Vec<(usize, usize)>,
}

impl SurfaceVdwGaussian {
    /// The atoms' ranges tile the points.
    pub open spec fn wf(&self) -> bool {
        &&& self.surface_calc.wf()
        &&& tiles(self.gslice_by_atom@, self.surface_calc.points() as int)
    }

    /// A surface without atoms.
    pub fn new() -> (s: SurfaceVdwGaussian)
        ensures
            s.wf(),
            s.gslice_by_atom@.len() == 0,
            s.surface_calc.points() == 0,
    {
        SurfaceVdwGaussian { surface_calc: SurfaceCalc::new(), gslice_by_atom: Vec::new() }
    }

    /// Appends the kept points of the next atom and records their range.
    pub fn add_atom(&mut self, atom: &AtomSphere)
        requires
            old(self).wf(),
            atom.wf(),
            old(self).surface_calc.points() + atom.products@.len() <= usize::MAX,
        ensures
            final(self).wf(),
            final(self).gslice_by_atom@ == old(self).gslice_by_atom@.push(
                (
                    old(self).surface_calc.points() as usize,
                    (old(self).surface_calc.points() + atom.kept_count()) as usize,
                ),
            ),
            final(self).surface_calc.grid_coords@ == old(self).surface_calc.grid_coords@
                + kept_entries(atom.points@, atom.products@),
            final(self).surface_calc.weights@ == old(self).surface_calc.weights@ + kept_entries(
                atom.weights@,
                atom.products@,
            ),
            final(self).surface_calc.switch_fun@ == old(self).surface_calc.switch_fun@
                + kept_entries(atom.switches@, atom.products@),
            final(self).surface_calc.norm_vec@ == old(self).surface_calc.norm_vec@ + kept_entries(
                atom.normals@,
                atom.products@,
            ),
            final(self).surface_calc.charge_exp@ == old(self).surface_calc.charge_exp@
                + kept_entries(atom.exponents@, atom.products@),
            final(self).surface_calc.area@ == old(self).surface_calc.area@ + kept_entries(
                atom.areas@,
                atom.products@,
            ),
            final(self).surface_calc.R_vdw@ == old(self).surface_calc.R_vdw@ + Seq::new(
                atom.kept_count(),
                |i: int| atom.radius,
            ),
    {
        let mask: Vec<usize> = kept_points(&atom.products);
        let ghost n = atom.products@.len() as int;
        proof {
            law_selected_len(atom.points@, mask@, n);
            law_selected_len(atom.weights@, mask@, n);
            law_selected_len(atom.switches@, mask@, n);
            law_selected_len(atom.normals@, mask@, n);
            law_selected_len(atom.exponents@, mask@, n);
            law_selected_len(atom.areas@, mask@, n);
        }
        let p0: usize = self.surface_calc.weights.len();
        select_into(&mut self.surface_calc.grid_coords, &atom.points, &mask);
        select_into(&mut self.surface_calc.weights, &atom.weights, &mask);
        select_into(&mut self.surface_calc.switch_fun, &atom.switches, &mask);
        select_into(&mut self.surface_calc.norm_vec, &atom.normals, &mask);
        select_into(&mut self.surface_calc.charge_exp, &atom.exponents, &mask);
        select_into(&mut self.surface_calc.area, &atom.areas, &mask);
        let p1: usize = self.surface_calc.weights.len();
        repeat_into(&mut self.surface_calc.R_vdw, atom.radius, p1 - p0);
        self.gslice_by_atom.push((p0, p1));
    }
}

/// Where a reduced distance lies in the switching region of an atom.
#[derive(Clone, Copy, Debug, PartialEq, Eq, Structural)]
pub enum SwitchRegion {
    /// Inside the atom: the point is switched off.
    Inside,
    /// In between: the point is partly switched off.
    Between,
    /// Outside: the point is not affected.
    Outside,
}

/// Where a reduced distance lies.
pub open spec fn switch_region(x: Real) -> SwitchRegion {
    if x.below(crate::binary64::zero()) {
        SwitchRegion::Inside
    } else if (Real { bits: UNIT }).at_most(x) {
        SwitchRegion::Outside
    } else {
        SwitchRegion::Between
    }
}

/// The pattern of 1, the reduced distance from which on a point is outside.
pub const UNIT: u64 = 0x3ff0_0000_0000_0000;

/// The pattern of 1e-8, below which a reduced distance counts as inside.
pub const INSIDE: u64 = 0x3e45_798e_e230_8c3a;

/// Decides where a reduced distance lies.
pub fn switch_h(x: Real) -> (r: SwitchRegion)
    ensures
        r == switch_region(x),
{
    if x.lt(Real { bits: 0 }) {
        SwitchRegion::Inside
    } else if x.ge(Real { bits: UNIT }) {
        SwitchRegion::Outside
    } else {
        SwitchRegion::Between
    }
}

/// Where a reduced distance lies when a surface is built: very small ones count as inside.
pub open spec fn build_region(x: Real) -> SwitchRegion {
    if x.below(Real { bits: INSIDE }) {
        SwitchRegion::Inside
    } else {
        switch_region(x)
    }
}

/// Decides where the reduced distances of a point to all atoms lie when a surface is built.
pub fn switch_matrix(distances: &Vec<Real>) -> (r: Vec<SwitchRegion>)
    ensures
        r@ == distances@.map_values(|x: Real| build_region(x)),
{
    let mut r: Vec<SwitchRegion> = Vec::new();
    let mut i: usize = 0;
    while i < distances.len()
        invariant
            i <= distances@.len(),
            r@.len() == i,
            forall|k: int| 0 <= k < i ==> #[trigger] r@[k] == build_region(distances@[k]),
        decreases distances@.len() - i,
    {
        if distances[i].lt(Real { bits: INSIDE }) {
            r.push(SwitchRegion::Inside);
        } else {
            r.push(switch_h(distances[i]));
        }
        i += 1;
    }
    assert(r@ =~= distances@.map_values(|x: Real| build_region(x)));
    r
}

/// A term of a polynomial: a coefficient and the power that it goes with.
#[derive(Clone, Copy, Debug, PartialEq, Eq, Structural)]
pub struct PowerTerm {
    pub coefficient: i32,
    pub power: u32,
}

/// The switching function in between, by terms.
pub open spec fn switch_terms() -> Seq<PowerTerm> {
    seq![
        PowerTerm { coefficient: 10, power: 3 },
        PowerTerm { coefficient: (-15) as i32, power: 4 },
        PowerTerm { coefficient: 6, power: 5 },
    ]
}

/// The derivative of the switching function in between, by terms.
pub open spec fn switch_slope_terms() -> Seq<PowerTerm> {
    seq![
        PowerTerm { coefficient: 30, power: 2 },
        PowerTerm { coefficient: (-60) as i32, power: 3 },
        PowerTerm { coefficient: 30, power: 4 },
    ]
}

/// The switching function in between, by terms.
pub fn switch_polynomial() -> (r: Vec<PowerTerm>)
    ensures
        r@ == switch_terms(),
{
    let r: Vec<PowerTerm> = vec![
        PowerTerm { coefficient: 10, power: 3 },
        PowerTerm { coefficient: -15, power: 4 },
        PowerTerm { coefficient: 6, power: 5 },
    ];
    assert(r@ =~= switch_terms());
    r
}

/// The derivative of the switching function in between, by terms.
pub fn grad_switch_h() -> (r: Vec<PowerTerm>)
    ensures
        r@ == switch_slope_terms(),
{
    let r: Vec<PowerTerm> = vec![
        PowerTerm { coefficient: 30, power: 2 },
        PowerTerm { coefficient: -60, power: 3 },
        PowerTerm { coefficient: 30, power: 4 },
    ];
    assert(r@ =~= switch_slope_terms());
    r
}

/// The sum of the coefficients, which is the value at one.
pub open spec fn value_at_one(terms: Seq<PowerTerm>) -> int
    decreases terms.len(),
{
    if terms.len() == 0 {
        0
    } else {
        value_at_one(terms.drop_last()) + terms.last().coefficient
    }
}

/// The switching function goes from zero to one, and its slope, which is its derivative term
/// by term, is zero at both ends.
pub proof fn law_switch_smooth()
    ensures
        switch_slope_terms().len() == switch_terms().len(),
        forall|i: int|
            0 <= i < switch_terms().len() ==> {
                let (h, g) = (#[trigger] switch_terms()[i], switch_slope_terms()[i]);
                &&& h.power > 0 && g.power == h.power - 1 && g.power > 0
                &&& g.coefficient == h.coefficient * h.power
            },
        value_at_one(switch_terms()) == 1,
        value_at_one(switch_slope_terms()) == 0,
{
    reveal_with_fuel(value_at_one, 4);
    let (h, g) = (switch_terms(), switch_slope_terms());
    assert(h.drop_last() =~= seq![h[0], h[1]]);
    assert(h.drop_last().drop_last() =~= seq![h[0]]);
    assert(h.drop_last().drop_last().drop_last() =~= seq![]);
    assert(g.drop_last() =~= seq![g[0], g[1]]);
    assert(g.drop_last().drop_last() =~= seq![g[0]]);
    assert(g.drop_last().drop_last().drop_last() =~= seq![]);
    assert(10 * 3 == 30 && (-15) * 4 == -60 && 6 * 5 == 30);
    assert forall|i: int| 0 <= i < h.len() implies {
        let (a, b) = (#[trigger] h[i], g[i]);
        &&& a.power > 0 && b.power == a.power - 1 && b.power > 0
        &&& b.coefficient == a.coefficient * a.power
    } by {
        if i == 0 {
            assert(h[i].coefficient == 10 && h[i].power == 3);
        } else if i == 1 {
            assert(h[i].coefficient == -15 && h[i].power == 4);
        } else {
            assert(h[i].coefficient == 6 && h[i].power == 5);
        }
    }
}

/// Bondi radii are scaled by 1.2 and those of the force field by 1.1, unless a scale is given,
/// which always wins.
pub proof fn law_scale(s: RadiusScheme, given: Real)
    ensures
        scale_in_use(None, s) == default_scale(s),
        scale_in_use(Some(given), s) == given,
        default_scale(s).bits == 0x3ff3_3333_3333_3333 <==> s == RadiusScheme::Bondi,
        default_scale(s).bits == 0x3ff1_9999_9999_999a <==> s == RadiusScheme::UFF,
{
}

/// Each scheme has one upper-case keyword, and so has each choice of radii for the surface
/// tension; no other text names one.
pub proof fn law_radius_keywords(keyword: Seq<char>)
    ensures
        scheme_of(keyword) == Some(RadiusScheme::Bondi) <==> keyword == "BONDI"@,
        scheme_of(keyword) == Some(RadiusScheme::UFF) <==> keyword == "UFF"@,
        cavity_of(keyword) == Some(SmdCavityRadii::Bondi) <==> keyword == "BONDI"@,
        cavity_of(keyword) == Some(SmdCavityRadii::BondiUff) <==> keyword == "UFF_MIXED"@,
{
    reveal_strlit("BONDI");
    reveal_strlit("UFF");
    reveal_strlit("UFF_MIXED");
    assert("BONDI"@.len() == 5 && "UFF"@.len() == 3 && "UFF_MIXED"@.len() == 9);
}

/// Only the hydrogen of the Bondi scheme has a radius besides its table: 1.1 angstrom, in Bohr.
/// Any other atom of either scheme is found in the table at its own number.
pub proof fn law_base_radius(s: RadiusScheme, z: usize)
    ensures
        base_of(s, z) == BaseRadius::Table(z) <==> !(z == 1 && s == RadiusScheme::Bondi),
        base_of(s, z) == BaseRadius::BondiHydrogen(Real { bits: 0x4000_a12c_cdad_f400 }) <==> z == 1
            && s == RadiusScheme::Bondi,
{
}

/// Intrinsic radii by value: each belongs to one element, and no other element has one.
pub proof fn law_intrinsic_radius(z: int)
    ensures
        intrinsic_radius(z) == 120 <==> z == 1,
        intrinsic_radius(z) == 185 <==> z == 6,
        intrinsic_radius(z) == 189 <==> z == 7,
        intrinsic_radius(z) == 173 <==> z == 9,
        intrinsic_radius(z) == 247 <==> z == 14,
        intrinsic_radius(z) == 212 <==> z == 15,
        intrinsic_radius(z) == 249 <==> z == 16,
        intrinsic_radius(z) == 238 <==> z == 17,
        intrinsic_radius(z) == 260 <==> z == 35,
        intrinsic_radius(z) == 274 <==> z == 53,
        intrinsic_radius(z) == 0 <==> !(z == 1 || z == 6 || z == 7 || z == 9 || z == 14 || z == 15
            || z == 16 || z == 17 || z == 35 || z == 53),
{
}

/// Only oxygen depends on the acidity of the solvent: its radius is 1.52, and below an acidity
/// of 0.43 it grows by 1.80 for each unit that is missing.
pub proof fn law_oxygen_radius(alpha: Real, z: usize, scheme: SmdCavityRadii, measured: Seq<Real>)
    ensures
        smd_radius(alpha, z, scheme, measured) is Oxygen <==> z == 8,
        smd_radius(alpha, z, scheme, measured) matches SmdRadius::Oxygen { base, slope, acidity }
            ==> {
            &&& base == 152
            &&& acidity.bits == 0x3fdb_851e_b851_eb85
            &&& slope == 0 || slope == 180
            &&& slope == 0 <==> acidity.at_most(alpha)
        },
        forall|other: Real|
            z != 8 ==> #[trigger] smd_radius(other, z, scheme, measured) == smd_radius(
                alpha,
                z,
                scheme,
                measured,
            ),
{
}

/// Any other atom takes its intrinsic radius where it has one, else a positive measured radius
/// where measured radii are asked for, else the radius of the table, at its own number.
pub proof fn law_smd_radius(alpha: Real, z: usize, scheme: SmdCavityRadii, measured: Seq<Real>)
    requires
        z != 8,
    ensures
        ({
            let r = smd_radius(alpha, z, scheme, measured);
            let fixed = intrinsic_radius(z as int);
            let usable = scheme == SmdCavityRadii::BondiUff && z < measured.len()
                && crate::binary64::zero().below(measured[z as int]);
            &&& r is Intrinsic <==> fixed > 0
            &&& r == SmdRadius::Intrinsic(fixed as u32) <==> fixed > 0
            &&& r == SmdRadius::Measured(z) <==> fixed == 0 && usable
            &&& r == SmdRadius::Vdw(z) <==> fixed == 0 && !usable
        }),
{
}

/// A kept entry stands behind as many kept entries as stand before it: the selection keeps
/// every marked entry, in order, and nothing else.
pub proof fn law_selected_entries<T>(data: Seq<T>, mask: Seq<usize>, n: int, i: int)
    requires
        0 <= i < n,
        mask[i] != 0,
    ensures
        0 <= mask_count(mask, i) < selected(data, mask, n).len(),
        selected(data, mask, n)[mask_count(mask, i) as int] == data[i],
    decreases n,
{
    law_selected_len(data, mask, n);
    law_selected_len(data, mask, n - 1);
    law_selected_len(data, mask, i);
    if i < n - 1 {
        law_selected_entries(data, mask, n - 1, i);
    }
}

/// A point is kept exactly when its product exceeds 1e-16: one with a larger product than a
/// kept one is kept too.
pub proof fn law_kept(product: Real, larger: Real, products: Seq<Real>, i: int)
    requires
        0 <= i < products.len(),
    ensures
        kept(product) && product.below(larger) ==> kept(larger),
        kept(Real { bits: 0x3c9c_d2b2_97d8_89bd }),
        !kept(Real { bits: 0x3c9c_d2b2_97d8_89bc }),
        product.nan() ==> !kept(product),
        kept_mask(products).len() == products.len(),
        kept_mask(products)[i] != 0 <==> kept(products[i]),
        kept_mask(products)[i] <= 1,
{
}

/// Exactly negative distances lie inside and exactly those from one on outside, zero being in
/// between. When a surface is built, inside reaches up to 1e-8 and nothing else differs.
pub proof fn law_switch_region(x: Real)
    ensures
        switch_region(x) == SwitchRegion::Inside <==> x.below(crate::binary64::zero()),
        switch_region(x) == SwitchRegion::Outside <==> 0x3ff0_0000_0000_0000 <= x.bits
            <= 0x7ff0_0000_0000_0000,
        switch_region(crate::binary64::zero()) == SwitchRegion::Between,
        build_region(x) == SwitchRegion::Inside <==> x.below(
            Real { bits: 0x3e45_798e_e230_8c3a },
        ),
        build_region(x) == SwitchRegion::Outside <==> switch_region(x) == SwitchRegion::Outside,
        switch_region(x) == SwitchRegion::Inside ==> build_region(x) == SwitchRegion::Inside,
{
}

/// The switching function has three terms, of the powers three to five; with the conditions at
/// its end, where it is one and both its slope and its curvature are zero, that leaves one
/// polynomial.
pub proof fn law_switch_curvature()
    ensures
        switch_terms().len() == 3,
        forall|i: int| 0 <= i < 3 ==> (#[trigger] switch_terms()[i]).power == i + 3,
        ({
            let h = switch_terms();
            &&& h[0].coefficient + h[1].coefficient + h[2].coefficient == 1
            &&& 3 * h[0].coefficient + 4 * h[1].coefficient + 5 * h[2].coefficient == 0
            &&& 6 * h[0].coefficient + 12 * h[1].coefficient + 20 * h[2].coefficient == 0
        }),
{
}

/// Of the points of a sphere exactly those with a large enough product are kept, in order: a kept
/// point stands behind as many as were kept before it.
pub proof fn law_kept_entries<T>(data: Seq<T>, products: Seq<Real>, i: int)
    requires
        data.len() == products.len(),
        0 <= i < products.len(),
    ensures
        kept_entries(data, products).len() == mask_count(
            kept_mask(products),
            products.len() as int,
        ),
        kept(products[i]) ==> {
            let before = mask_count(kept_mask(products), i);
            before < kept_entries(data, products).len() && kept_entries(data, products)[before as int]
                == data[i]
        },
{
    law_selected_len(data, kept_mask(products), products.len() as int);
    if kept(products[i]) {
        assert(kept_mask(products)[i] == 1);
        law_selected_entries(data, kept_mask(products), products.len() as int, i);
    }
}

/// Data and mask are compared as far as both reach.
pub proof fn law_common_len(a: nat, b: nat)
    ensures
        common_len(a, b) <= a,
        common_len(a, b) <= b,
        common_len(a, b) == a || common_len(a, b) == b,
{
}

} // verus!
