use vstd::prelude::*;
use crate::stadium::Base;
use crate::types::InningType;

verus! {

/// Whether the packed occupancy byte marks `base` as occupied: bit 0 is first
/// base, bit 1 second, bit 2 third; home plate is never occupied.
pub open spec fn spec_base_occupied(bases_occupied: u8, base: Base) -> bool {
    match base {
        Base::Home => false,
        Base::First => bases_occupied as nat % 2 == 1,
        Base::Second => (bases_occupied as nat / 2) % 2 == 1,
        Base::Third => (bases_occupied as nat / 4) % 2 == 1,
    }
}

/// Reads the occupancy bit of `base`; bits above the third base are ignored.
pub fn is_base_occupied(bases_occupied: u8, base: Base) -> (occupied: bool)
    ensures
        occupied == spec_base_occupied(bases_occupied, base),
{
    let b = bases_occupied;
    match base {
        Base::Home => false,
        Base::First => {
            assert((b & 1u8) != 0 <==> b % 2 == 1) by (bit_vector);
            (b & 1u8) != 0
        },
        Base::Second => {
            assert((b & 2u8) != 0 <==> (b / 2) % 2 == 1) by (bit_vector);
            (b & 2u8) != 0
        },
        Base::Third => {
            assert((b & 4u8) != 0 <==> (b / 4) % 2 == 1) by (bit_vector);
            (b & 4u8) != 0
        },
    }
}

pub open spec fn spec_next_tb(tb: InningType) -> InningType {
    match tb {
        InningType::Top => InningType::Bottom,
        InningType::Bottom => InningType::Top,
    }
}

/// The other half of the inning.
pub fn next_tb(tb: InningType) -> (next: InningType)
    ensures
        next == spec_next_tb(tb),
{
    if tb == InningType::Bottom {
        InningType::Top
    } else {
        InningType::Bottom
    }
}

} // verus!
