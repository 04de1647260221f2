use vstd::prelude::*;
use crate::game::BaseCode;

verus! {

/// The weight of the bit that records whether `base` is occupied.
pub open spec fn base_bit_weight(base: BaseCode) -> nat {
    match base {
        BaseCode::First => 1,
        BaseCode::Second => 2,
        BaseCode::Third => 4,
    }
}

/// Whether the packed occupancy byte marks `base` as occupied.
pub open spec fn spec_base_occupied(bases_occupied: u8, base: BaseCode) -> bool {
    (bases_occupied as nat / base_bit_weight(base)) % 2 == 1
}

/// Reads the occupancy bit of `base`; bits above the third base are ignored.
pub fn is_base_occupied(bases_occupied: u8, base: BaseCode) -> (occupied: bool)
    ensures
        occupied == spec_base_occupied(bases_occupied, base),
{
    let b = bases_occupied;
    match base {
        BaseCode::First => {
            assert((b & 1u8) != 0 <==> b % 2 == 1) by (bit_vector);
            (b & 1u8) != 0
        },
        BaseCode::Second => {
            assert((b & 2u8) != 0 <==> (b / 2) % 2 == 1) by (bit_vector);
            (b & 2u8) != 0
        },
        BaseCode::Third => {
            assert((b & 4u8) != 0 <==> (b / 4) % 2 == 1) by (bit_vector);
            (b & 4u8) != 0
        },
    }
}

} // verus!
