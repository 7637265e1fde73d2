//! What is remembered about the player between ticks.

use vstd::prelude::*;

verus! {

/// Where the player stands, whether the player pilots a structure, and the
/// structure the player is inside of, if any.
#[derive(Clone, Copy, Debug, PartialEq, Eq)]
pub struct PlayerResource {
    pub grid_position: (i32, i32),
    pub is_controlling_structure: bool,
    pub inside_structure: Option<u64>,
}

impl Default for PlayerResource {
    fn default() -> (p: PlayerResource)
        ensures
            p == (PlayerResource { grid_position: (0, 0), is_controlling_structure: false, inside_structure: None }),
    {
        PlayerResource { grid_position: (0, 0), is_controlling_structure: false, inside_structure: None }
    }
}

} // verus!
