//! The device capability record the layout optimizer reads.
//!
//! Of a full hardware description, the geometric optimizer consumes exactly
//! two physical quantities: the interaction coefficient of the driven
//! Rydberg level and the maximum squared radial distance from the center of
//! the trap array. Both are carried here as exact integers; richer device
//! descriptions (channels, waveform limits, serialization) live with the
//! unverified wire-format layer.

use vstd::prelude::*;

verus! {

use crate::c6::C6Coeff;

/// The capabilities of a target device that the layout optimizer reads.
#[derive(Debug, Clone, Copy, PartialEq, Eq, Structural)]
pub struct Device {
    interaction_coeff: C6Coeff,
    rydberg_level: u32,
    /// Maximum distance to the center of the board, in um.
    max_radial_distance_um: u32,
    /// Minimum distance between two atoms, in um.
    min_atom_distance_um: u32,
}

impl Device {
    /// The driven Rydberg level, in specifications.
    pub closed spec fn spec_rydberg_level(self) -> u32 {
        self.rydberg_level
    }

    /// The maximum radial distance, in specifications.
    pub closed spec fn spec_max_radial_distance_um(self) -> u32 {
        self.max_radial_distance_um
    }

    /// The interaction coefficient, in specifications.
    pub closed spec fn spec_interaction_coeff(self) -> C6Coeff {
        self.interaction_coeff
    }

    /// The minimum atom distance, in specifications.
    pub closed spec fn spec_min_atom_distance_um(self) -> u32 {
        self.min_atom_distance_um
    }

    /// A device record from its capabilities. The Rydberg level must be one
    /// the interaction model supports.
    pub fn try_new(
        rydberg_level: u32,
        max_radial_distance_um: u32,
        min_atom_distance_um: u32,
    ) -> (r: Option<Self>)
        ensures
            r is Some <==> C6Coeff::MIN <= rydberg_level <= C6Coeff::MAX,
            r matches Some(d) ==> {
                &&& d.spec_rydberg_level() == rydberg_level
                &&& d.spec_max_radial_distance_um() == max_radial_distance_um
                &&& d.spec_min_atom_distance_um() == min_atom_distance_um
                &&& d.spec_interaction_coeff().spec_hundredths() == crate::c6::c6_table()[
                    rydberg_level - 50]
            },
    {
        match C6Coeff::new(rydberg_level) {
            Some(interaction_coeff) => Some(
                Self {
                    interaction_coeff,
                    rydberg_level,
                    max_radial_distance_um,
                    min_atom_distance_um,
                },
            ),
            None => None,
        }
    }

    /// The hard-coded analog device: Rydberg level 60, a trap array of
    /// radius 35 um, atoms at least 5 um apart.
    pub fn analog() -> (r: Self)
        ensures
            r.spec_rydberg_level() == 60,
            r.spec_max_radial_distance_um() == 35,
            r.spec_min_atom_distance_um() == 5,
            r.spec_interaction_coeff().spec_hundredths() == crate::c6::c6_table()[10],
    {
        let interaction_coeff = match C6Coeff::new(60) {
            Some(c) => c,
            None => {
                proof {
                    assert(false);
                }
                C6Coeff::new(50).unwrap()
            },
        };
        Self {
            interaction_coeff,
            rydberg_level: 60,
            max_radial_distance_um: 35,
            min_atom_distance_um: 5,
        }
    }

    /// The interaction coefficient of the driven Rydberg level.
    pub fn interaction_coeff(&self) -> (r: C6Coeff)
        ensures
            r == self.spec_interaction_coeff(),
    {
        self.interaction_coeff
    }

    /// The squared maximum radial distance from the center of the trap
    /// array, in um^2.
    pub fn max_sq_distance_to_center(&self) -> (r: u64)
        ensures
            r == self.spec_max_radial_distance_um() * self.spec_max_radial_distance_um(),
    {
        proof {
            assert((self.max_radial_distance_um as int) * (self.max_radial_distance_um as int)
                <= u64::MAX) by (nonlinear_arith)
                requires
                    0 <= self.max_radial_distance_um <= u32::MAX,
            {}
        }
        (self.max_radial_distance_um as u64) * (self.max_radial_distance_um as u64)
    }

    /// The minimum distance between two atoms, in um.
    pub fn min_atom_distance(&self) -> (r: u32)
        ensures
            r == self.spec_min_atom_distance_um(),
    {
        self.min_atom_distance_um
    }

    /// The driven Rydberg level.
    pub fn rydberg_level(&self) -> (r: u32)
        ensures
            r == self.spec_rydberg_level(),
    {
        self.rydberg_level
    }
}

} // verus!
