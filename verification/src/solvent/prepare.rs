//! Settings of a solvation calculation from the input.

use crate::binary64::{zero, Real};
use crate::solvent::method::{
    is_water_descriptor, water_descriptor, within, PcmMethod, PcmObjectCfg, SurfaceSwitchType, UNSET,
    WATER_ACIDITY_RANGE, WATER_DIELECTRIC_RANGE, WATER_INDEX_RANGE,
};
use crate::solvent::surface_utils::{
    smd_radii, smd_radius, RadiusScheme, SmdCavityRadii, SmdRadius, SurfaceVdwGaussianCfg,
};
use vstd::prelude::*;

verus! {

/// Why a solvation calculation cannot be set up.
#[derive(Clone, Copy, Debug, PartialEq, Eq, Structural)]
pub enum SolventError {
    /// The model needs solvent descriptors, and there are none.
    MissingDescriptors,
    /// A descriptor that the model needs is negative.
    NegativeDescriptor,
}

impl SolventError {
    /// The message for the user.
    pub fn message(&self) -> (s: String)
        ensures
            s@ == (match *self {
                SolventError::MissingDescriptors =>
                    "SMD solvent model requires solvent descriptors. You should set solvent_descriptors or solvent_name in the control file."@,
                SolventError::NegativeDescriptor =>
                    "SMD solvent model requires valid [n, α, β, γ, φ, ψ]. Found negative value in them. Check solvent_descriptors or solvent_name in the control file."@,
            }),
    {
        let text: &str = match self {
            SolventError::MissingDescriptors =>
                "SMD solvent model requires solvent descriptors. You should set solvent_descriptors or solvent_name in the control file.",
            SolventError::NegativeDescriptor =>
                "SMD solvent model requires valid [n, α, β, γ, φ, ψ]. Found negative value in them. Check solvent_descriptors or solvent_name in the control file.",
        };
        text.to_owned()
    }
}

/// Whether the descriptors are those of water.
pub open spec fn water(d: Seq<Real>) -> bool {
    within(d[0], WATER_INDEX_RANGE) && within(d[2], WATER_ACIDITY_RANGE) && within(
        d[5],
        WATER_DIELECTRIC_RANGE,
    )
}

/// Whether a descriptor that a solvent other than water needs is negative.
pub open spec fn negative_descriptor(d: Seq<Real>) -> bool {
    d[0].below(zero()) || d[2].below(zero()) || d[3].below(zero()) || d[4].below(zero())
        || d[6].below(zero()) || d[7].below(zero())
}

/// What the input says of the solvent.
#[derive(Clone, Copy, Debug)]
pub struct SolventInput {
    pub solvent_model: PcmMethod,
    pub solv_epsilon: Real,
    pub solvent_descriptors: Option<[Real; 8]>,
    pub pcm_cavity_radii: RadiusScheme,
    pub smd_cavity_radii: SmdCavityRadii,
}

/// Why a calculation cannot be set up, if it cannot.
pub open spec fn refusal(input: SolventInput) -> Option<SolventError> {
    if input.solvent_model != PcmMethod::SMD {
        None
    } else if input.solvent_descriptors is None {
        Some(SolventError::MissingDescriptors)
    } else if !water(input.solvent_descriptors->0@) && negative_descriptor(
        input.solvent_descriptors->0@,
    ) {
        Some(SolventError::NegativeDescriptor)
    } else {
        None
    }
}

/// The number of the solvent: 1 for water, 2 for another.
pub open spec fn solvent_number(d: Seq<Real>) -> i32 {
    if water(d) {
        1
    } else {
        2
    }
}

/// The scale that a model gives to its cavity radii, in place of the usual one.
pub open spec fn cavity_scale(m: PcmMethod) -> Option<Real> {
    if m == PcmMethod::SMD {
        Some(Real { bits: UNIT_SCALE })
    } else {
        None
    }
}

/// The cavity radius of an atom in the solvent with these descriptors.
pub open spec fn solute_radius(
    d: Seq<Real>,
    z: usize,
    scheme: SmdCavityRadii,
    measured: Seq<Real>,
) -> SmdRadius {
    smd_radius(d[2], z, scheme, measured)
}

/// Whether a model has surface tensions.
pub open spec fn has_tension(m: PcmMethod) -> bool {
    m == PcmMethod::SMD
}

/// A solvation calculation that is ready to build its cavity.
pub struct SolventSetup {
    pub cfg: PcmObjectCfg,
    pub surface: SurfaceVdwGaussianCfg,
    /// Where the radii of the atoms come from, in place of the surface's scheme.
    pub radii: Option<Vec<SmdRadius>>,
    /// Surface tensions are evaluated.
    pub tension: bool,
}

/// The pattern of 1, the scale of radii that are used as they are.
pub const UNIT_SCALE: u64 = 0x3ff0_0000_0000_0000;

/// Sets up a solvation calculation. Only the model with surface tensions needs descriptors;
/// for the others they stay unset. Descriptors of a solvent other than water may not be
/// negative. The model with surface tensions has its own radii, which are not scaled.
pub fn solvent_prepare(
    input: &SolventInput,
    atomic_numbers: &Vec<usize>,
    measured: &Vec<Real>,
) -> (r: Result<SolventSetup, SolventError>)
    ensures
        r is Err <==> refusal(*input) is Some,
        r matches Err(e) ==> refusal(*input) == Some(e),
        r matches Ok(p) ==> {
            let c = p.cfg;
            let smd = input.solvent_model == PcmMethod::SMD;
            &&& c.method == input.solvent_model
            &&& c.epsilon == input.solv_epsilon
            &&& smd ==> c.solvent_descriptors == input.solvent_descriptors->0
            &&& !smd ==> forall|i: int|
                0 <= i < 8 ==> (#[trigger] c.solvent_descriptors@[i]).bits == UNSET
            &&& c.icds == solvent_number(c.solvent_descriptors@)
            &&& p.surface.lebedev_degree == 302
            &&& p.surface.atom_radii is None
            &&& p.surface.radius_scheme == input.pcm_cavity_radii
            &&& p.surface.switch_type == SurfaceSwitchType::ISWIG
            &&& p.surface.vdw_scale == cavity_scale(input.solvent_model)
            &&& p.radii is Some <==> smd
            &&& p.radii matches Some(v) ==> v@ == atomic_numbers@.map_values(
                |z: usize|
                    solute_radius(
                        c.solvent_descriptors@,
                        z,
                        input.smd_cavity_radii,
                        measured@,
                    ),
            )
            &&& p.tension == has_tension(input.solvent_model)
        },
{
    let method: PcmMethod = input.solvent_model;
    let smd: bool = matches!(method, PcmMethod::SMD);
    let d: [Real; 8] = if smd {
        match input.solvent_descriptors {
            Some(d) => d,
            None => {
                return Err(SolventError::MissingDescriptors);
            },
        }
    } else {
        let u = Real { bits: UNSET };
        [u, u, u, u, u, u, u, u]
    };
    let icds: i32 = if is_water_descriptor(&d) {
        1
    } else {
        2
    };
    if smd && icds == 2 {
        let z = Real { bits: 0 };
        if d[0].lt(z) || d[2].lt(z) || d[3].lt(z) || d[4].lt(z) || d[6].lt(z) || d[7].lt(z) {
            return Err(SolventError::NegativeDescriptor);
        }
    }
    let cfg: PcmObjectCfg = PcmObjectCfg::build(method, input.solv_epsilon, d, icds);
    let mut surface: SurfaceVdwGaussianCfg = SurfaceVdwGaussianCfg::new(input.pcm_cavity_radii);
    let radii: Option<Vec<SmdRadius>> = if smd {
        surface.vdw_scale = Some(Real { bits: UNIT_SCALE });
        let v: Vec<SmdRadius> = smd_radii(d[2], atomic_numbers, input.smd_cavity_radii, measured);
        assert(v@ =~= atomic_numbers@.map_values(
            |z: usize| solute_radius(d@, z, input.smd_cavity_radii, measured@),
        ));
        Some(v)
    } else {
        None
    };
    Ok(SolventSetup { cfg, surface, radii, tension: smd })
}

/// Unset descriptors are never taken for water.
pub proof fn law_unset_is_not_water(d: Seq<Real>)
    requires
        d.len() == 8,
        forall|i: int| 0 <= i < 8 ==> (#[trigger] d[i]).bits == UNSET,
    ensures
        !water(d),
{
    assert(d[0].bits == UNSET);
}

/// Descriptors are those of water exactly when the refractive index, the acidity and the
/// dielectric constant lie in their ranges; no other descriptor has a say. Those of water do.
pub proof fn law_water(d: Seq<Real>, other: Seq<Real>)
    ensures
        water(d) <==> {
            &&& 0x3ff5_2a30_5532_617d <= d[0].bits <= 0x3ff5_7c1b_da51_19cd
            &&& 0x3fe9_eb85_1eb8_51ec <= d[2].bits <= 0x3fea_8f5c_28f5_c28e
            &&& 0x4053_56b8_51eb_8520 <= d[5].bits <= 0x4053_d6b8_51eb_851e
        },
        d[0] == other[0] && d[2] == other[2] && d[5] == other[5] ==> water(d) == water(other),
        (forall|i: int| 0 <= i < 8 ==> #[trigger] d[i] == water_descriptor(i)) ==> water(d),
{
    if forall|i: int| 0 <= i < 8 ==> #[trigger] d[i] == water_descriptor(i) {
        assert(d[0] == water_descriptor(0) && d[2] == water_descriptor(2) && d[5]
            == water_descriptor(5));
    }
}

/// A descriptor is needed when it is neither the second refractive index nor the dielectric
/// constant: one negative among these is enough, and the two others may be negative.
pub proof fn law_negative_descriptor(d: Seq<Real>)
    requires
        d.len() == 8,
    ensures
        negative_descriptor(d) <==> exists|i: int|
            0 <= i < 8 && i != 1 && i != 5 && (#[trigger] d[i]).below(zero()),
{
    if negative_descriptor(d) {
        let i: int = if d[0].below(zero()) {
            0
        } else if d[2].below(zero()) {
            2
        } else if d[3].below(zero()) {
            3
        } else if d[4].below(zero()) {
            4
        } else if d[6].below(zero()) {
            6
        } else {
            7
        };
        assert(d[i].below(zero()));
    }
}

/// Only the model with surface tensions can be refused: without descriptors for that reason
/// alone, and with them exactly when they are not those of water and one that is needed is
/// negative. So the descriptors of water are never refused.
pub proof fn law_refusal(input: SolventInput)
    ensures
        refusal(input) is Some ==> input.solvent_model == PcmMethod::SMD,
        refusal(input) == Some(SolventError::MissingDescriptors) <==> input.solvent_model
            == PcmMethod::SMD && input.solvent_descriptors is None,
        refusal(input) == Some(SolventError::NegativeDescriptor) <==> input.solvent_model
            == PcmMethod::SMD && (input.solvent_descriptors matches Some(d) && solvent_number(d@)
            == 2 && negative_descriptor(d@)),
{
}

/// Solvent 1 is water and solvent 2 is any other; there is no third number.
pub proof fn law_solvent_number(d: Seq<Real>)
    ensures
        solvent_number(d) == 1 <==> water(d),
        solvent_number(d) == 2 <==> !water(d),
{
}

/// Surface tensions and radii of its own, unscaled, belong to one model alone.
pub proof fn law_tension_model(m: PcmMethod)
    ensures
        has_tension(m) <==> m == PcmMethod::SMD,
        cavity_scale(m) is Some <==> has_tension(m),
        cavity_scale(m) is Some ==> cavity_scale(m) == Some(Real { bits: 0x3ff0_0000_0000_0000 }),
{
}

/// The descriptors that may not be negative are those that play a role in a solvent other than
/// water, each of them and no other.
pub proof fn law_needed_descriptors(d: Seq<Real>)
    ensures
        ({
            let r = crate::solvent::smd_cds::roles_of(d);
            negative_descriptor(d) <==> {
                ||| r.refractive_index.below(zero())
                ||| r.acidity.below(zero())
                ||| r.basicity.below(zero())
                ||| r.surface_tension.below(zero())
                ||| r.aromaticity.below(zero())
                ||| r.halogenicity.below(zero())
            }
        }),
{
}

/// Of the solvent only its acidity changes a cavity radius, and only that of oxygen.
pub proof fn law_solute_radius(
    d: Seq<Real>,
    other: Seq<Real>,
    z: usize,
    scheme: SmdCavityRadii,
    measured: Seq<Real>,
)
    ensures
        crate::solvent::smd_cds::roles_of(d).acidity == crate::solvent::smd_cds::roles_of(
            other,
        ).acidity || z != 8 ==> solute_radius(d, z, scheme, measured) == solute_radius(
            other,
            z,
            scheme,
            measured,
        ),
        z == 8 ==> (solute_radius(d, z, scheme, measured) matches SmdRadius::Oxygen {
            base,
            slope,
            acidity,
        } && (slope == 0 <==> acidity.at_most(crate::solvent::smd_cds::roles_of(d).acidity))),
{
}

} // verus!
