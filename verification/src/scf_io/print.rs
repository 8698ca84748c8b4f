//! What the reports of a calculation show.

use crate::binary64::Real;
use crate::scf_io::setup::{SCFType, SCF};
use crate::scf_io::util::{homo_of, integer_homo_lumo, is_populated, occupied_of, populated};
use vstd::prelude::*;

verus! {

/// The gap line of one spin channel.
#[derive(Clone, Copy, Debug, PartialEq, Eq, Structural)]
pub enum GapLine {
    /// The frontier orbitals, and the channel whose orbital energies they index.
    Gap { homo: usize, lumo: usize, eigenvalues: usize },
    /// There is no unoccupied orbital.
    NoVirtual { homo: usize },
    /// The channel holds no electron.
    NoElectron,
}

/// The gap line of channel `spin`; `states` is the number of orbital energies and
/// `electrons` tells whether the channel holds any electron.
pub open spec fn gap_line(
    scftype: SCFType,
    spin_channel: int,
    spin: usize,
    homo: usize,
    lumo: usize,
    states: int,
    electrons: bool,
) -> GapLine {
    if spin_channel == 1 {
        if lumo < states {
            GapLine::Gap { homo, lumo, eigenvalues: 0 }
        } else {
            GapLine::NoVirtual { homo }
        }
    } else if electrons {
        GapLine::Gap {
            homo,
            lumo,
            eigenvalues: if scftype == SCFType::ROHF {
                0
            } else {
                spin
            },
        }
    } else {
        GapLine::NoElectron
    }
}

/// The highest occupied orbital that is shown, for `nocc` orbitals occupied by whole electrons.
pub open spec fn shown_homo(smeared: bool, nocc: int, homo: usize) -> usize {
    if smeared {
        homo_of(nocc) as usize
    } else {
        homo
    }
}

/// The lowest unoccupied orbital that is shown.
pub open spec fn shown_lumo(smeared: bool, nocc: int, lumo: usize) -> usize {
    if smeared {
        nocc as usize
    } else {
        lumo
    }
}

/// The number of sets of orbitals that are printed.
pub open spec fn printed_sets(t: SCFType, channels: usize) -> usize {
    if channels == 1 || t == SCFType::ROHF {
        1
    } else {
        channels
    }
}

impl SCF {
    /// Decides what the gap line of one spin channel shows. `num_elec` holds the numbers of
    /// all, alpha and beta electrons, and `states` is the number of orbital energies. With
    /// smeared occupations the frontier orbitals are those of integer occupations. All
    /// channels of a restricted open-shell calculation share the orbital energies of the
    /// first.
    pub fn print_homo_lumo_gap(
        &self,
        spin: usize,
        num_elec: &[Real; 3],
        states: usize,
        smeared: bool,
    ) -> (r: GapLine)
        requires
            spin < self.mol.spin_channel <= 2,
        ensures
            r == gap_line(
                self.scftype,
                self.mol.spin_channel as int,
                spin,
                shown_homo(
                    smeared,
                    occupied_of(num_elec@, self.mol.spin_channel as int, spin as int),
                    self.homo@[spin as int],
                ),
                shown_lumo(
                    smeared,
                    occupied_of(num_elec@, self.mol.spin_channel as int, spin as int),
                    self.lumo@[spin as int],
                ),
                states as int,
                populated(num_elec@[spin + 1]),
            ),
    {
        let (homo, lumo): (usize, usize) = if smeared {
            let (h, l) = integer_homo_lumo(num_elec, self.mol.spin_channel);
            (h[spin], l[spin])
        } else {
            (self.homo[spin], self.lumo[spin])
        };
        if self.mol.spin_channel == 1 {
            if lumo < states {
                GapLine::Gap { homo, lumo, eigenvalues: 0 }
            } else {
                GapLine::NoVirtual { homo }
            }
        } else if is_populated(num_elec[spin + 1]) {
            let eigenvalues: usize = match self.scftype {
                SCFType::ROHF => 0,
                _ => spin,
            };
            GapLine::Gap { homo, lumo, eigenvalues }
        } else {
            GapLine::NoElectron
        }
    }
}

/// How many orbital energies of a channel are printed.
pub open spec fn printed_states(
    scftype: SCFType,
    occupations: int,
    eigenvalues: int,
    wanted: int,
) -> int {
    if occupations >= wanted {
        wanted
    } else {
        match scftype {
            SCFType::RHF => eigenvalues,
            SCFType::UHF => 0,
            SCFType::ROHF => occupations,
        }
    }
}

impl SCF {
    /// Decides how many orbital energies of a channel are printed. An unrestricted channel
    /// with too few of them prints only their number.
    pub fn formated_eigenvalues(
        &self,
        occupations: usize,
        eigenvalues: usize,
        wanted: usize,
    ) -> (n: usize)
        ensures
            n == printed_states(
                self.scftype,
                occupations as int,
                eigenvalues as int,
                wanted as int,
            ),
    {
        if occupations >= wanted {
            wanted
        } else {
            match self.scftype {
                SCFType::RHF => eigenvalues,
                SCFType::UHF => 0,
                SCFType::ROHF => occupations,
            }
        }
    }

    /// Decides how many sets of orbitals are printed: one for restricted calculations.
    pub fn formated_eigenvectors(&self) -> (n: usize)
        ensures
            n == printed_sets(self.scftype, self.mol.spin_channel),
    {
        if self.mol.spin_channel == 1 || matches!(self.scftype, SCFType::ROHF) {
            1
        } else {
            self.mol.spin_channel
        }
    }
}

/// A gap is shown exactly where the frontier orbitals exist: with one channel when there is an
/// unoccupied orbital, with two when the channel holds electrons. It shows the orbitals that it
/// is given, with the orbital energies of their own channel unless a restricted open shell
/// shares those of the first.
pub proof fn law_gap_line(
    t: SCFType,
    channels: int,
    spin: usize,
    homo: usize,
    lumo: usize,
    states: int,
    electrons: bool,
)
    requires
        spin < channels,
    ensures
        ({
            let g = gap_line(t, channels, spin, homo, lumo, states, electrons);
            &&& g is NoVirtual <==> channels == 1 && lumo >= states
            &&& g is NoElectron <==> channels != 1 && !electrons
            &&& g matches GapLine::Gap { homo: h, lumo: l, eigenvalues } ==> {
                &&& h == homo && l == lumo
                &&& eigenvalues == 0 <==> spin == 0 || t == SCFType::ROHF
                &&& eigenvalues == 0 || eigenvalues == spin
            }
            &&& g matches GapLine::NoVirtual { homo: h } ==> h == homo
        }),
{
}

/// With smeared occupations the frontier orbitals shown are those of whole electrons, next to
/// each other; otherwise they are shown as they are.
pub proof fn law_shown_frontier(nocc: int, homo: usize, lumo: usize)
    requires
        0 < nocc <= usize::MAX,
    ensures
        shown_lumo(true, nocc, lumo) == nocc,
        shown_homo(true, nocc, homo) + 1 == shown_lumo(true, nocc, lumo),
        shown_homo(false, nocc, homo) == homo,
        shown_lumo(false, nocc, lumo) == lumo,
        shown_homo(true, 0, homo) == 0,
{
}

/// As many states are printed as are wanted where so many have an occupation. Otherwise a closed
/// shell prints all orbital energies, a restricted open shell those with an occupation, and an
/// unrestricted calculation none.
pub proof fn law_printed_states(t: SCFType, occupations: int, eigenvalues: int, wanted: int)
    ensures
        ({
            let n = printed_states(t, occupations, eigenvalues, wanted);
            &&& occupations >= wanted ==> n == wanted
            &&& occupations < wanted && t == SCFType::RHF ==> n == eigenvalues
            &&& occupations < wanted && t == SCFType::ROHF ==> n == occupations
            &&& occupations < wanted && t == SCFType::UHF ==> n == 0
        }),
{
}

/// Only an unrestricted calculation prints more than one set of orbitals, one for each channel.
pub proof fn law_printed_sets(t: SCFType, channels: usize)
    ensures
        t == SCFType::ROHF ==> printed_sets(t, channels) == 1,
        t != SCFType::ROHF ==> printed_sets(t, channels) == channels,
        printed_sets(t, 1) == 1,
{
}

} // verus!
