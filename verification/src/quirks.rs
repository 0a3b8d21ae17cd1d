//! Platform-behavior flags: documented deviations in instruction semantics
//! between the original interpreter and its SuperChip successor, selected
//! once at startup and immutable afterwards.

use vstd::prelude::*;

verus! {

/// The platform whose behavior the machine reproduces.
#[derive(Clone, Copy, Debug, PartialEq, Eq, Structural)]
pub enum Platform {
    Chip8,
    SuperChip,
}

/// Four independent platform-behavior flags consulted by the executor.
#[derive(Clone, Copy, Debug, PartialEq, Eq, Structural)]
pub struct Quirks {
    /// After a bitwise OR/AND/XOR of two registers the flag register is forced to zero.
    pub reset_flag: bool,
    /// Block store/load advances the index register by one per register copied.
    pub increment_index_register: bool,
    /// Shifts read the target register itself rather than the source register.
    pub shift_in_place: bool,
    /// Jump-with-offset adds the X register rather than register zero.
    pub jump_plus_x_register: bool,
}

impl Quirks {
    /// The flag settings that belong to `platform`.
    pub open spec fn for_platform(platform: Platform) -> Quirks {
        match platform {
            Platform::Chip8 => Quirks {
                reset_flag: true,
                increment_index_register: true,
                shift_in_place: false,
                jump_plus_x_register: false,
            },
            Platform::SuperChip => Quirks {
                reset_flag: false,
                increment_index_register: false,
                shift_in_place: true,
                jump_plus_x_register: true,
            },
        }
    }

    /// Selects the quirk profile for the chosen platform.
    pub fn new(platform: Platform) -> (q: Quirks)
        ensures
            q == Quirks::for_platform(platform),
    {
        match platform {
            Platform::Chip8 => Quirks {
                reset_flag: true,
                increment_index_register: true,
                shift_in_place: false,
                jump_plus_x_register: false,
            },
            Platform::SuperChip => Quirks {
                reset_flag: false,
                increment_index_register: false,
                shift_in_place: true,
                jump_plus_x_register: true,
            },
        }
    }
}

} // verus!
