//! The polarizable continuum models, their keywords and their settings.

use crate::binary64::Real;
use crate::keywords::{ascii_upper, is_word, reads, unknown_keyword, upper, uppercase};
use vstd::prelude::*;
use vstd::utf8::is_ascii_chars;

verus! {

/// Polarizable continuum model.
#[derive(Clone, Copy, Debug, PartialEq, Eq, Structural)]
pub enum PcmMethod {
    CPCM,
    COSMO,
    IEFPCM,
    SSVPE,
    /// IEFPCM electrostatics with surface-tension terms.
    SMD,
}

/// The name of a model.
pub open spec fn method_name(m: PcmMethod) -> Seq<char> {
    match m {
        PcmMethod::CPCM => "CPCM"@,
        PcmMethod::COSMO => "COSMO"@,
        PcmMethod::IEFPCM => "IEFPCM"@,
        PcmMethod::SSVPE => "SSVPE"@,
        PcmMethod::SMD => "SMD"@,
    }
}

/// The model that an upper-case keyword selects.
pub open spec fn method_of(keyword: Seq<char>) -> Option<PcmMethod> {
    if keyword == "CPCM"@ {
        Some(PcmMethod::CPCM)
    } else if keyword == "COSMO"@ {
        Some(PcmMethod::COSMO)
    } else if keyword == "IEFPCM"@ {
        Some(PcmMethod::IEFPCM)
    } else if keyword == "SSVPE"@ || keyword == "SS(V)PE"@ {
        Some(PcmMethod::SSVPE)
    } else if keyword == "SMD"@ {
        Some(PcmMethod::SMD)
    } else {
        None
    }
}

impl Default for PcmMethod {
    fn default() -> (m: PcmMethod)
        ensures
            m == PcmMethod::CPCM,
    {
        PcmMethod::CPCM
    }
}

impl PcmMethod {
    /// The name of the model.
    pub fn name(&self) -> (s: String)
        ensures
            s@ == method_name(*self),
    {
        let word: &str = match self {
            PcmMethod::CPCM => "CPCM",
            PcmMethod::COSMO => "COSMO",
            PcmMethod::IEFPCM => "IEFPCM",
            PcmMethod::SSVPE => "SSVPE",
            PcmMethod::SMD => "SMD",
        };
        word.to_owned()
    }

    /// The model that an upper-case keyword selects.
    pub fn from_keyword(keyword: &String) -> (r: Option<PcmMethod>)
        ensures
            r == method_of(keyword@),
    {
        if is_word(keyword, "CPCM") {
            Some(PcmMethod::CPCM)
        } else if is_word(keyword, "COSMO") {
            Some(PcmMethod::COSMO)
        } else if is_word(keyword, "IEFPCM") {
            Some(PcmMethod::IEFPCM)
        } else if is_word(keyword, "SSVPE") || is_word(keyword, "SS(V)PE") {
            Some(PcmMethod::SSVPE)
        } else if is_word(keyword, "SMD") {
            Some(PcmMethod::SMD)
        } else {
            None
        }
    }

    /// Reads a model from the input, in any case of letters.
    pub fn parse(s: &str) -> (r: Result<PcmMethod, String>)
        ensures
            reads(method_of(upper(s@)), "Unknown PCM method: "@, s@, r),
            is_ascii_chars(s@) ==> reads(method_of(ascii_upper(s@)), "Unknown PCM method: "@, s@, r),
    {
        match PcmMethod::from_keyword(&uppercase(s)) {
            Some(m) => Ok(m),
            None => Err(unknown_keyword("Unknown PCM method: ", s)),
        }
    }

    /// Whether the model uses the double-layer matrix.
    pub fn uses_double_layer(&self) -> (b: bool)
        ensures
            b == uses_double_layer(*self),
    {
        match self {
            PcmMethod::IEFPCM => true,
            PcmMethod::SSVPE => true,
            PcmMethod::SMD => true,
            _ => false,
        }
    }
}

/// Whether a model uses the double-layer matrix.
pub open spec fn uses_double_layer(m: PcmMethod) -> bool {
    m == PcmMethod::IEFPCM || m == PcmMethod::SSVPE || m == PcmMethod::SMD
}

/// Reading the name of a model, or any text that differs from it in the case of its ASCII
/// letters, gives the model back.
pub proof fn law_method_name(m: PcmMethod, s: Seq<char>)
    requires
        is_ascii_chars(s),
        ascii_upper(s) == ascii_upper(method_name(m)),
    ensures
        method_of(ascii_upper(s)) == Some(m),
{
    reveal_strlit("CPCM");
    reveal_strlit("COSMO");
    reveal_strlit("IEFPCM");
    reveal_strlit("SSVPE");
    reveal_strlit("SS(V)PE");
    reveal_strlit("SMD");
    assert(ascii_upper(method_name(m)) =~= method_name(m));
    assert("CPCM"@[1] == 'P' && "COSMO"@[1] == 'O' && "IEFPCM"@[1] == 'E' && "SSVPE"@[1] == 'S'
        && "SMD"@[1] == 'M');
    assert("SSVPE"@[0] == 'S' && "CPCM"@[0] == 'C' && "COSMO"@[0] == 'C' && "IEFPCM"@[0] == 'I');
    assert("SS(V)PE"@.len() == 7 && "SMD"@.len() == 3);
}

/// Smoothing of the cavity surface.
#[derive(Clone, Copy, Debug, PartialEq, Eq, Structural)]
pub enum SurfaceSwitchType {
    SWIG,
    ISWIG,
}

/// The smoothing that an upper-case keyword selects.
pub open spec fn switch_of(keyword: Seq<char>) -> Option<SurfaceSwitchType> {
    if keyword == "SWIG"@ {
        Some(SurfaceSwitchType::SWIG)
    } else if keyword == "ISWIG"@ {
        Some(SurfaceSwitchType::ISWIG)
    } else {
        None
    }
}

impl Default for SurfaceSwitchType {
    fn default() -> (t: SurfaceSwitchType)
        ensures
            t == SurfaceSwitchType::ISWIG,
    {
        SurfaceSwitchType::ISWIG
    }
}

impl SurfaceSwitchType {
    /// The smoothing that an upper-case keyword selects.
    pub fn from_keyword(keyword: &String) -> (r: Option<SurfaceSwitchType>)
        ensures
            r == switch_of(keyword@),
    {
        if is_word(keyword, "SWIG") {
            Some(SurfaceSwitchType::SWIG)
        } else if is_word(keyword, "ISWIG") {
            Some(SurfaceSwitchType::ISWIG)
        } else {
            None
        }
    }

    /// Reads a smoothing from the input, in any case of letters.
    pub fn parse(s: &str) -> (r: Result<SurfaceSwitchType, String>)
        ensures
            reads(switch_of(upper(s@)), "Unknown switch type: "@, s@, r),
            is_ascii_chars(s@) ==> reads(switch_of(ascii_upper(s@)), "Unknown switch type: "@, s@, r),
    {
        match SurfaceSwitchType::from_keyword(&uppercase(s)) {
            Some(t) => Ok(t),
            None => Err(unknown_keyword("Unknown switch type: ", s)),
        }
    }
}

/// Settings of a continuum model.
#[derive(Clone, Copy, Debug)]
pub struct PcmObjectCfg {
    pub method: PcmMethod,
    /// Dielectric constant.
    pub epsilon: Real,
    /// Refractive index, index at 25 degrees, acidity, basicity, surface tension,
    /// dielectric constant, aromatic fraction, halogen fraction.
    pub solvent_descriptors: [Real; 8],
    /// 1 for water, 2 for another solvent.
    pub icds: i32,
}

/// The dielectric constant of water used by default.
pub const WATER_EPSILON: u64 = 0x4053_96bd_3c36_1134;

/// The pattern of minus one, which marks a descriptor as unset.
pub const UNSET: u64 = 0xbff0_0000_0000_0000;

impl PcmObjectCfg {
    /// Settings from their parts.
    pub fn build(
        method: PcmMethod,
        epsilon: Real,
        solvent_descriptors: [Real; 8],
        icds: i32,
    ) -> (c: PcmObjectCfg)
        ensures
            c.method == method,
            c.epsilon == epsilon,
            c.solvent_descriptors == solvent_descriptors,
            c.icds == icds,
    {
        PcmObjectCfg { method, epsilon, solvent_descriptors, icds }
    }
}

impl Default for PcmObjectCfg {
    fn default() -> (c: PcmObjectCfg)
        ensures
            c.method == PcmMethod::CPCM,
            c.epsilon.bits == WATER_EPSILON,
            forall|i: int| 0 <= i < 8 ==> (#[trigger] c.solvent_descriptors@[i]).bits == UNSET,
            c.icds == 0,
    {
        let u = Real { bits: UNSET };
        PcmObjectCfg {
            method: PcmMethod::CPCM,
            epsilon: Real { bits: WATER_EPSILON },
            solvent_descriptors: [u, u, u, u, u, u, u, u],
            icds: 0,
        }
    }
}

/// The descriptors of water, in the order of the settings.
pub open spec fn water_descriptor(i: int) -> Real {
    if i == 0 {
        Real { bits: 0x3ff5532617c1bda5 }
    } else if i == 1 {
        Real { bits: 0x3ff55119ce075f70 }
    } else if i == 2 {
        Real { bits: 0x3fea3d70a3d70a3d }
    } else if i == 3 {
        Real { bits: 0x3fd6666666666666 }
    } else if i == 5 {
        Real { bits: 0x405396b851eb851f }
    } else {
        Real { bits: UNSET }
    }
}

/// The descriptors of water.
pub fn water_descriptors() -> (d: [Real; 8])
    ensures
        d@[0].bits == 0x3ff5532617c1bda5,
        d@[1].bits == 0x3ff55119ce075f70,
        d@[2].bits == 0x3fea3d70a3d70a3d,
        d@[3].bits == 0x3fd6666666666666,
        d@[4].bits == UNSET,
        d@[5].bits == 0x405396b851eb851f,
        d@[6].bits == UNSET,
        d@[7].bits == UNSET,
        forall|i: int| 0 <= i < 8 ==> #[trigger] d@[i] == water_descriptor(i),
{
    let u = Real { bits: UNSET };
    [
        Real { bits: 0x3ff5532617c1bda5 },
        Real { bits: 0x3ff55119ce075f70 },
        Real { bits: 0x3fea3d70a3d70a3d },
        Real { bits: 0x3fd6666666666666 },
        u,
        Real { bits: 0x405396b851eb851f },
        u,
        u,
    ]
}

/// The numbers that differ from 1.3328 by less than 0.01 in binary64 arithmetic.
pub const WATER_INDEX_RANGE: (u64, u64) = (0x3ff5_2a30_5532_617d, 0x3ff5_7c1b_da51_19cd);

/// The numbers that differ from 0.82 by less than 0.01 in binary64 arithmetic.
pub const WATER_ACIDITY_RANGE: (u64, u64) = (0x3fe9_eb85_1eb8_51ec, 0x3fea_8f5c_28f5_c28e);

/// The numbers that differ from 78.355 by less than 1 in binary64 arithmetic.
pub const WATER_DIELECTRIC_RANGE: (u64, u64) = (0x4053_56b8_51eb_8520, 0x4053_d6b8_51eb_851e);

/// Whether a value lies between two patterns, ends included.
pub open spec fn within(x: Real, range: (u64, u64)) -> bool {
    (Real { bits: range.0 }).at_most(x) && x.at_most(Real { bits: range.1 })
}

/// Whether a value lies between two patterns, ends included.
fn is_within(x: Real, range: (u64, u64)) -> (b: bool)
    ensures
        b == within(x, range),
{
    (Real { bits: range.0 }).le(x) && x.le(Real { bits: range.1 })
}

/// Whether the refractive index, the acidity and the dielectric constant are those of
/// water; the other descriptors are not looked at.
pub fn is_water_descriptor(d: &[Real; 8]) -> (b: bool)
    ensures
        b == (within(d@[0], WATER_INDEX_RANGE) && within(d@[2], WATER_ACIDITY_RANGE) && within(
            d@[5],
            WATER_DIELECTRIC_RANGE,
        )),
{
    is_within(d[0], WATER_INDEX_RANGE) && is_within(d[2], WATER_ACIDITY_RANGE) && is_within(
        d[5],
        WATER_DIELECTRIC_RANGE,
    )
}

/// Each model has one upper-case keyword, the surface-and-volume model two, and no other text
/// names a model.
pub proof fn law_method_keywords(keyword: Seq<char>)
    ensures
        method_of(keyword) == Some(PcmMethod::CPCM) <==> keyword == "CPCM"@,
        method_of(keyword) == Some(PcmMethod::COSMO) <==> keyword == "COSMO"@,
        method_of(keyword) == Some(PcmMethod::IEFPCM) <==> keyword == "IEFPCM"@,
        method_of(keyword) == Some(PcmMethod::SSVPE) <==> keyword == "SSVPE"@ || keyword
            == "SS(V)PE"@,
        method_of(keyword) == Some(PcmMethod::SMD) <==> keyword == "SMD"@,
{
    reveal_strlit("CPCM");
    reveal_strlit("COSMO");
    reveal_strlit("IEFPCM");
    reveal_strlit("SSVPE");
    reveal_strlit("SS(V)PE");
    reveal_strlit("SMD");
    assert("CPCM"@.len() == 4 && "COSMO"@.len() == 5 && "IEFPCM"@.len() == 6 && "SSVPE"@.len() == 5
        && "SS(V)PE"@.len() == 7 && "SMD"@.len() == 3);
    assert("COSMO"@[0] == 'C' && "SSVPE"@[0] == 'S');
}

/// Each smoothing has one upper-case keyword, and no other text names one.
pub proof fn law_switch_keywords(keyword: Seq<char>)
    ensures
        switch_of(keyword) == Some(SurfaceSwitchType::SWIG) <==> keyword == "SWIG"@,
        switch_of(keyword) == Some(SurfaceSwitchType::ISWIG) <==> keyword == "ISWIG"@,
{
    reveal_strlit("SWIG");
    reveal_strlit("ISWIG");
    assert("SWIG"@.len() == 4 && "ISWIG"@.len() == 5);
}

/// The models that do not use the double layer are the two conductor-like ones.
pub proof fn law_double_layer_models(m: PcmMethod)
    ensures
        uses_double_layer(m) <==> m != PcmMethod::CPCM && m != PcmMethod::COSMO,
{
}

/// The descriptors of water by value: the surface tension and the fractions are unset.
pub proof fn law_water_descriptor(i: int)
    requires
        0 <= i < 8,
    ensures
        water_descriptor(i).bits == 0x3ff5532617c1bda5 <==> i == 0,
        water_descriptor(i).bits == 0x3ff55119ce075f70 <==> i == 1,
        water_descriptor(i).bits == 0x3fea3d70a3d70a3d <==> i == 2,
        water_descriptor(i).bits == 0x3fd6666666666666 <==> i == 3,
        water_descriptor(i).bits == 0x405396b851eb851f <==> i == 5,
        water_descriptor(i).bits == 0xbff0_0000_0000_0000 <==> i == 4 || i == 6 || i == 7,
{
}

/// A range holds its ends and everything between, and nothing else.
pub proof fn law_within(x: Real, range: (u64, u64))
    requires
        range.0 <= range.1 <= 0x7ff0_0000_0000_0000,
        range.0 > 0,
    ensures
        within(x, range) <==> range.0 <= x.bits <= range.1,
{
}

} // verus!
