//! Orbital occupations.

use crate::binary64::Real;
use crate::counts::{count_of, rounded_count};
use vstd::prelude::*;

verus! {

/// The pattern of 1e-6, above which an orbital counts as occupied.
pub const ORB_OCCUPATION_THRESHOLD: u64 = 0x3eb0_c6f7_a0b5_ed8d;

/// The number of orbitals up to the last one occupied above the threshold.
pub open spec fn occupied_count(occupation: Seq<Real>, threshold: Real) -> nat
    decreases occupation.len(),
{
    if occupation.len() == 0 {
        0
    } else if threshold.below(occupation.last()) {
        occupation.len()
    } else {
        occupied_count(occupation.drop_last(), threshold)
    }
}

/// The number of orbitals up to the last one occupied above the threshold.
pub fn occupied_orbital_count_with_threshold(occupation: &Vec<Real>, threshold: Real) -> (n: usize)
    ensures
        n == occupied_count(occupation@, threshold),
{
    let mut n: usize = occupation.len();
    assert(occupation@.take(n as int) =~= occupation@);
    while n > 0
        invariant
            n <= occupation@.len(),
            occupied_count(occupation@, threshold) == occupied_count(
                occupation@.take(n as int),
                threshold,
            ),
        decreases n,
    {
        assert(occupation@.take(n as int).last() == occupation@[n - 1]);
        assert(occupation@.take(n as int).drop_last() =~= occupation@.take(n - 1));
        if occupation[n - 1].gt(threshold) {
            return n;
        }
        n -= 1;
    }
    0
}

/// The number of orbitals up to the last occupied one.
pub fn occupied_orbital_count(occupation: &Vec<Real>) -> (n: usize)
    ensures
        n == occupied_count(occupation@, Real { bits: ORB_OCCUPATION_THRESHOLD }),
{
    occupied_orbital_count_with_threshold(occupation, Real { bits: ORB_OCCUPATION_THRESHOLD })
}

/// Every occupied orbital is counted, the last one counted is occupied, and a higher
/// threshold counts no more orbitals.
pub proof fn law_occupied_count(occupation: Seq<Real>, threshold: Real, higher: Real)
    ensures
        occupied_count(occupation, threshold) <= occupation.len(),
        forall|i: int|
            occupied_count(occupation, threshold) <= i < occupation.len() ==> !threshold.below(
                #[trigger] occupation[i],
            ),
        occupied_count(occupation, threshold) > 0 ==> threshold.below(
            occupation[occupied_count(occupation, threshold) - 1],
        ),
        threshold.at_most(higher) ==> occupied_count(occupation, higher) <= occupied_count(
            occupation,
            threshold,
        ),
    decreases occupation.len(),
{
    if occupation.len() > 0 {
        let shorter = occupation.drop_last();
        law_occupied_count(shorter, threshold, higher);
        law_occupied_count(occupation.drop_last(), higher, higher);
        assert forall|i: int|
            occupied_count(occupation, threshold) <= i < occupation.len() implies !threshold.below(
            #[trigger] occupation[i],
        ) by {
            if i < shorter.len() {
                assert(occupation[i] == shorter[i]);
            }
        }
    }
}

/// Whether no orbital is occupied more than the one before it, beyond the tolerance
/// that `raised` adds to each occupation.
pub open spec fn aufbau(raised: Seq<Real>, occupation: Seq<Real>) -> bool {
    forall|i: int|
        0 < i < occupation.len() ==> #[trigger] occupation[i].below(raised[i - 1])
}

/// Whether occupations descend. `raised` holds each occupation with the tolerance added.
pub fn is_aufbau(raised: &Vec<Real>, occupation: &Vec<Real>) -> (b: bool)
    requires
        raised@.len() == occupation@.len(),
    ensures
        b == aufbau(raised@, occupation@),
{
    let mut i: usize = 1;
    while i < occupation.len()
        invariant
            1 <= i,
            raised@.len() == occupation@.len(),
            forall|x: int|
                0 < x < i && x < occupation@.len() ==> #[trigger] occupation@[x].below(
                    raised@[x - 1],
                ),
        decreases occupation@.len() - i,
    {
        if !raised[i - 1].gt(occupation[i]) {
            assert(!occupation@[i as int].below(raised@[i - 1]));
            return false;
        }
        i += 1;
    }
    true
}

/// The highest occupied orbital for a number of occupied orbitals; zero if there is none.
pub open spec fn homo_of(nocc: int) -> int {
    if nocc > 0 {
        nocc - 1
    } else {
        0
    }
}

/// The number of occupied orbitals of a channel: half of all electrons with a single
/// channel, the electrons of one spin otherwise. Counts are rounded.
pub open spec fn occupied_of(num_elec: Seq<Real>, spin_channel: int, s: int) -> int {
    if spin_channel == 1 {
        count_of(num_elec[0], 2)
    } else {
        count_of(num_elec[s + 1], 1)
    }
}

/// The highest occupied orbital of a channel; zero for a channel not in use.
pub open spec fn channel_homo(num_elec: Seq<Real>, spin_channel: int, s: int) -> int {
    if s < spin_channel {
        homo_of(occupied_of(num_elec, spin_channel, s))
    } else {
        0
    }
}

/// The lowest unoccupied orbital of a channel; zero for a channel not in use.
pub open spec fn channel_lumo(num_elec: Seq<Real>, spin_channel: int, s: int) -> int {
    if s < spin_channel {
        occupied_of(num_elec, spin_channel, s)
    } else {
        0
    }
}

/// Frontier orbitals of integer occupations, for `num_elec` electrons: all, alpha and beta.
/// Channels not in use stay zero.
pub fn integer_homo_lumo(num_elec: &[Real; 3], spin_channel: usize) -> (r: (
    [usize; 2],
    [usize; 2],
))
    requires
        spin_channel <= 2,
    ensures
        forall|s: int|
            0 <= s < 2 ==> #[trigger] r.0@[s] == channel_homo(num_elec@, spin_channel as int, s),
        forall|s: int|
            0 <= s < 2 ==> #[trigger] r.1@[s] == channel_lumo(num_elec@, spin_channel as int, s),
{
    let mut homo: [usize; 2] = [0, 0];
    let mut lumo: [usize; 2] = [0, 0];
    let mut s: usize = 0;
    while s < spin_channel
        invariant
            s <= spin_channel <= 2,
            forall|x: int|
                0 <= x < 2 ==> #[trigger] homo@[x] == (if x < s {
                    homo_of(occupied_of(num_elec@, spin_channel as int, x))
                } else {
                    0
                }),
            forall|x: int|
                0 <= x < 2 ==> #[trigger] lumo@[x] == (if x < s {
                    occupied_of(num_elec@, spin_channel as int, x)
                } else {
                    0
                }),
        decreases spin_channel - s,
    {
        let n: usize = if spin_channel == 1 {
            rounded_count(num_elec[0], true)
        } else {
            rounded_count(num_elec[s + 1], false)
        };
        homo[s] = n.saturating_sub(1);
        lumo[s] = n;
        s += 1;
    }
    (homo, lumo)
}

/// The pattern of 1e-5, up to which a channel counts as empty.
pub const EMPTY_CHANNEL: u64 = 0x3ee4_f8b5_88e3_68f1;

/// Whether a channel holds enough electrons to be compared and reported.
pub open spec fn populated(num_elec: Real) -> bool {
    (Real { bits: EMPTY_CHANNEL }).below(num_elec)
}

/// Whether a channel holds enough electrons to be compared and reported.
pub fn is_populated(num_elec: Real) -> (b: bool)
    ensures
        b == populated(num_elec),
{
    num_elec.gt(Real { bits: EMPTY_CHANNEL })
}

/// Whether a channel holds electrons.
pub open spec fn holds(num_elec: Real) -> bool {
    crate::binary64::zero().below(num_elec)
}

/// The number of orbitals that make up the exchange of a channel.
pub open spec fn exchanging(num_elec: Real, occupation: Seq<Real>) -> int {
    if holds(num_elec) {
        occupied_count(occupation, Real { bits: ORB_OCCUPATION_THRESHOLD }) as int
    } else {
        0
    }
}

/// Whether a channel holds electrons: their number rounds up to more than zero.
pub fn holds_electrons(num_elec: Real) -> (b: bool)
    ensures
        b == holds(num_elec),
{
    num_elec.gt(Real { bits: 0 })
}

/// The orbitals that make up the exchange of a channel: none without electrons.
pub fn exchange_orbitals(num_elec: Real, occupation: &Vec<Real>) -> (n: usize)
    ensures
        n == exchanging(num_elec, occupation@),
{
    if holds_electrons(num_elec) {
        occupied_orbital_count(occupation)
    } else {
        0
    }
}

/// A channel is reported exactly above 1e-5 electrons, and holds electrons exactly above none.
pub proof fn law_populated(n: Real, more: Real)
    ensures
        populated(n) && n.below(more) ==> populated(more),
        populated(Real { bits: 0x3ee4_f8b5_88e3_68f2 }),
        !populated(Real { bits: 0x3ee4_f8b5_88e3_68f1 }),
        populated(n) ==> holds(n),
        holds(n) <==> 0 < n.bits <= 0x7ff0_0000_0000_0000,
        n.nan() ==> !populated(n) && !holds(n),
{
}

/// The exchange of a channel with electrons is made from its occupied orbitals, whose last one
/// is occupied above 1e-6; without electrons it is made from none.
pub proof fn law_exchanging(n: Real, occupation: Seq<Real>)
    ensures
        !holds(n) ==> exchanging(n, occupation) == 0,
        holds(n) ==> exchanging(n, occupation) == occupied_count(
            occupation,
            Real { bits: 0x3eb0_c6f7_a0b5_ed8d },
        ),
{
}

/// Occupied orbitals come before the unoccupied ones: the highest occupied one is the one right
/// below, or the first orbital when nothing is occupied. A single channel counts half of all
/// electrons, two count those of their own spin.
pub proof fn law_frontier(nocc: int, num_elec: Seq<Real>, s: int)
    requires
        num_elec.len() == 3,
        0 <= s < 2,
    ensures
        nocc > 0 ==> homo_of(nocc) + 1 == nocc,
        nocc <= 0 ==> homo_of(nocc) == 0,
        occupied_of(num_elec, 1, s) == count_of(num_elec[0], 2),
        occupied_of(num_elec, 2, 0) == count_of(num_elec[1], 1),
        occupied_of(num_elec, 2, 1) == count_of(num_elec[2], 1),
{
}

/// Occupations follow the aufbau principle exactly when each lies below the raised one before
/// it; a violation stays one when more orbitals follow.
pub proof fn law_aufbau(raised: Seq<Real>, occupation: Seq<Real>, i: int)
    requires
        raised.len() == occupation.len(),
        0 < i < occupation.len(),
    ensures
        aufbau(raised, occupation) ==> occupation[i].below(raised[i - 1]),
        aufbau(raised, occupation) ==> aufbau(raised.take(i), occupation.take(i)),
        aufbau(raised.take(i), occupation.take(i)) && i == occupation.len() - 1 ==> (aufbau(
            raised,
            occupation,
        ) <==> occupation[i].below(raised[i - 1])),
{
    if aufbau(raised, occupation) {
        assert forall|k: int| 0 < k < i implies #[trigger] occupation.take(i)[k].below(
            raised.take(i)[k - 1],
        ) by {
            assert(occupation[k].below(raised[k - 1]));
        }
    }
    if aufbau(raised.take(i), occupation.take(i)) && i == occupation.len() - 1
        && occupation[i].below(raised[i - 1]) {
        assert forall|k: int| 0 < k < occupation.len() implies #[trigger] occupation[k].below(
            raised[k - 1],
        ) by {
            if k < i {
                assert(occupation.take(i)[k].below(raised.take(i)[k - 1]));
            }
        }
    }
}

/// In a channel with electrons the lowest unoccupied orbital follows the highest occupied one;
/// channels not in use have neither.
pub proof fn law_channel_frontier(num_elec: Seq<Real>, channels: int, s: int)
    requires
        0 <= s,
    ensures
        s >= channels ==> channel_homo(num_elec, channels, s) == 0 && channel_lumo(
            num_elec,
            channels,
            s,
        ) == 0,
        channel_lumo(num_elec, channels, s) > 0 ==> channel_homo(num_elec, channels, s) + 1
            == channel_lumo(num_elec, channels, s),
        s < channels ==> channel_lumo(num_elec, channels, s) == occupied_of(num_elec, channels, s),
        channel_lumo(num_elec, channels, s) == 0 ==> channel_homo(num_elec, channels, s) == 0,
{
}

} // verus!
